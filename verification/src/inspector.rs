//! Pipeline inspectors: a trace of pipeline events as text, a validator of
//! their order, and summaries of per-cell stage results.

use vstd::prelude::*;
use vstd::string::StringExecFns;
use crate::state::AnimationPhase;
use crate::text::{dec, decimal};

verus! {

/// How much a trace records.
#[derive(Debug, Clone, Copy, PartialEq, Eq, Structural)]
pub enum TraceVerbosity {
    /// Only major checkpoints (config, profile, layers, phases).
    Minimal,
    /// Also render plans and effect extraction.
    Normal,
    /// Also per-shader and per-cell events.
    Verbose,
}

pub open spec fn verbosity_rank(v: TraceVerbosity) -> int {
    match v {
        TraceVerbosity::Minimal => 0,
        TraceVerbosity::Normal => 1,
        TraceVerbosity::Verbose => 2,
    }
}

/// The name a phase is written with.
pub open spec fn spec_phase_name(p: AnimationPhase) -> Seq<char> {
    match p {
        AnimationPhase::Entering => "Entering"@,
        AnimationPhase::Dwelling => "Dwelling"@,
        AnimationPhase::Exiting => "Exiting"@,
        AnimationPhase::Finished => "Finished"@,
    }
}

/// The name a phase is written with.
pub fn phase_name(p: AnimationPhase) -> (r: &'static str)
    ensures
        r@ == spec_phase_name(p),
{
    match p {
        AnimationPhase::Entering => "Entering",
        AnimationPhase::Dwelling => "Dwelling",
        AnimationPhase::Exiting => "Exiting",
        AnimationPhase::Finished => "Finished",
    }
}

/// A string as Rust's `Debug` writes it: quoted, with escapes.
pub uninterp spec fn debug_text(s: Seq<char>) -> Seq<char>;

/// `<str as Debug>::fmt` through `format!("{:?}")`: the string in double
/// quotes with special characters escaped. Only the name of the result is claimed.
#[verifier::external_body]
pub(crate) fn quoted(s: &String) -> (r: String)
    ensures
        r@ == debug_text(s@),
{
    format!("{:?}", s)
}

/// A trace of pipeline events, one line per event.
pub struct TraceInspector {
    pub verbosity: TraceVerbosity,
    pub output: String,
}

impl TraceInspector {
    /// An empty trace at normal verbosity.
    pub fn new() -> (t: TraceInspector)
        ensures
            t.verbosity == TraceVerbosity::Normal,
            t.output@ == Seq::<char>::empty(),
    {
        TraceInspector { verbosity: TraceVerbosity::Normal, output: String::new() }
    }

    /// The same trace at another verbosity.
    pub fn with_verbosity(self, verbosity: TraceVerbosity) -> (t: TraceInspector)
        ensures
            t.verbosity == verbosity,
            t.output == self.output,
    {
        let mut s = self;
        s.verbosity = verbosity;
        s
    }

    /// The lines recorded so far.
    pub fn output(&self) -> (r: &str)
        ensures
            r@ == self.output@,
    {
        self.output.as_str()
    }

    /// Appends one line.
    pub fn log(&mut self, message: &str)
        ensures
            final(self).output@ == old(self).output@ + message@ + "\n"@,
            final(self).verbosity == old(self).verbosity,
    {
        self.output.append(message);
        self.output.append("\n");
    }

    /// Whether events of level `rank` are recorded.
    fn records(&self, rank: u8) -> (r: bool)
        ensures
            r == (verbosity_rank(self.verbosity) >= rank),
    {
        let v: u8 = match self.verbosity {
            TraceVerbosity::Minimal => 0,
            TraceVerbosity::Normal => 1,
            TraceVerbosity::Verbose => 2,
        };
        v >= rank
    }

    /// Records that a config with `message` was parsed.
    pub fn on_config_parsed(&mut self, message: &String)
        ensures
            final(self).output@ == old(self).output@ + "CONFIG_PARSED: message="@ + debug_text(message@) + "\n"@,
            final(self).verbosity == old(self).verbosity,
    {
        let mut line = String::from_str("CONFIG_PARSED: message=");
        let q = quoted(message);
        line.append(q.as_str());
        self.log(line.as_str());
    }

    /// Records that the animation profile was built.
    pub fn on_profile_built(&mut self)
        ensures
            final(self).output@ == old(self).output@ + "PROFILE_BUILT"@ + "\n"@,
            final(self).verbosity == old(self).verbosity,
    {
        self.log("PROFILE_BUILT");
    }

    /// Records how many style layers were extracted.
    pub fn on_style_layers_extracted(&mut self, count: u64)
        ensures
            final(self).output@ == old(self).output@ + "STYLE_LAYERS_EXTRACTED: count="@ + dec(count as nat) + "\n"@,
            final(self).verbosity == old(self).verbosity,
    {
        let mut line = String::from_str("STYLE_LAYERS_EXTRACTED: count=");
        let n = decimal(count);
        line.append(n.as_str());
        self.log(line.as_str());
    }

    /// Records that a phase was entered.
    pub fn on_phase_entered(&mut self, phase: AnimationPhase)
        ensures
            final(self).output@ == old(self).output@ + "PHASE_ENTERED: "@ + spec_phase_name(phase) + "\n"@,
            final(self).verbosity == old(self).verbosity,
    {
        let mut line = String::from_str("PHASE_ENTERED: ");
        line.append(phase_name(phase));
        self.log(line.as_str());
    }

    /// Records a render plan item (normal verbosity and above).
    pub fn on_render_plan_created(&mut self, id: u64, phase: AnimationPhase)
        ensures
            final(self).verbosity == old(self).verbosity,
            final(self).output@ == (if verbosity_rank(old(self).verbosity) >= 1 {
                old(self).output@ + "RENDER_PLAN_CREATED: id="@ + dec(id as nat) + ", phase="@ + spec_phase_name(phase)
                    + "\n"@
            } else {
                old(self).output@
            }),
    {
        if self.records(1) {
            let mut line = String::from_str("RENDER_PLAN_CREATED: id=");
            let n = decimal(id);
            line.append(n.as_str());
            line.append(", phase=");
            line.append(phase_name(phase));
            self.log(line.as_str());
        }
    }

    /// Records whether a phase had a style effect (normal verbosity and above).
    pub fn on_effect_extracted(&mut self, phase: AnimationPhase, has_effect: bool)
        ensures
            final(self).verbosity == old(self).verbosity,
            final(self).output@ == (if verbosity_rank(old(self).verbosity) >= 1 {
                old(self).output@ + "EFFECT_EXTRACTED: phase="@ + spec_phase_name(phase) + (if has_effect {
                    ", effect=Some(...)"@
                } else {
                    ", effect=None"@
                }) + "\n"@
            } else {
                old(self).output@
            }),
    {
        if self.records(1) {
            let mut line = String::from_str("EFFECT_EXTRACTED: phase=");
            line.append(phase_name(phase));
            if has_effect {
                line.append(", effect=Some(...)");
            } else {
                line.append(", effect=None");
            }
            self.log(line.as_str());
        }
    }

    /// Records a shader layer (verbose only); `region` is the region as written out.
    pub fn on_shader_layer_built(&mut self, shader_name: &str, region: &str)
        ensures
            final(self).verbosity == old(self).verbosity,
            final(self).output@ == (if verbosity_rank(old(self).verbosity) >= 2 {
                old(self).output@ + "SHADER_LAYER_BUILT: shader="@ + shader_name@ + ", region="@ + region@ + "\n"@
            } else {
                old(self).output@
            }),
    {
        if self.records(2) {
            let mut line = String::from_str("SHADER_LAYER_BUILT: shader=");
            line.append(shader_name);
            line.append(", region=");
            line.append(region);
            self.log(line.as_str());
        }
    }

    /// Records a shader applied to a cell (verbose only).
    pub fn on_shader_applied(&mut self, x: u16, y: u16, shader_name: &str)
        ensures
            final(self).verbosity == old(self).verbosity,
            final(self).output@ == (if verbosity_rank(old(self).verbosity) >= 2 {
                old(self).output@ + "SHADER_APPLIED: x="@ + dec(x as nat) + ", y="@ + dec(y as nat) + ", shader="@
                    + shader_name@ + "\n"@
            } else {
                old(self).output@
            }),
    {
        if self.records(2) {
            let mut line = String::from_str("SHADER_APPLIED: x=");
            let xs = decimal(x as u64);
            line.append(xs.as_str());
            line.append(", y=");
            let ys = decimal(y as u64);
            line.append(ys.as_str());
            line.append(", shader=");
            line.append(shader_name);
            self.log(line.as_str());
        }
    }

    /// Records a rendered cell (verbose only).
    pub fn on_cell_rendered(&mut self, x: u16, y: u16)
        ensures
            final(self).verbosity == old(self).verbosity,
            final(self).output@ == (if verbosity_rank(old(self).verbosity) >= 2 {
                old(self).output@ + "CELL_RENDERED: x="@ + dec(x as nat) + ", y="@ + dec(y as nat) + "\n"@
            } else {
                old(self).output@
            }),
    {
        if self.records(2) {
            let mut line = String::from_str("CELL_RENDERED: x=");
            let xs = decimal(x as u64);
            line.append(xs.as_str());
            line.append(", y=");
            let ys = decimal(y as u64);
            line.append(ys.as_str());
            self.log(line.as_str());
        }
    }

    /// Records a finished frame of the given size.
    pub fn on_frame_complete(&mut self, width: u16, height: u16)
        ensures
            final(self).verbosity == old(self).verbosity,
            final(self).output@ == old(self).output@ + "FRAME_COMPLETE: buffer="@ + dec(width as nat) + "x"@
                + dec(height as nat) + "\n"@,
    {
        let mut line = String::from_str("FRAME_COMPLETE: buffer=");
        let w = decimal(width as u64);
        line.append(w.as_str());
        line.append("x");
        let h = decimal(height as u64);
        line.append(h.as_str());
        self.log(line.as_str());
    }
}

impl Default for TraceInspector {
    fn default() -> (t: TraceInspector)
        ensures
            t.verbosity == TraceVerbosity::Normal,
            t.output@ == Seq::<char>::empty(),
    {
        TraceInspector::new()
    }
}

/// Checks that pipeline events come in order and records what it saw.
pub struct ValidationInspector {
    pub config_parsed: bool,
    pub profile_built: bool,
    pub style_layers_count: usize,
    /// Names of the phases that had an effect, each once.
    pub effects_seen: Vec<String>,
    pub shaders_built: Vec<String>,
    pub cells_modified: usize,
    pub total_cells: usize,
    pub errors: Vec<String>,
    pub warnings: Vec<String>,
}

/// The strings' values.
pub open spec fn texts(v: Seq<String>) -> Seq<Seq<char>> {
    v.map_values(|s: String| s@)
}

/// The error and warning logs of `a` are prefixes of those of `b`.
pub open spec fn logs_grow(a: ValidationInspector, b: ValidationInspector) -> bool {
    &&& a.errors@.len() <= b.errors@.len()
    &&& forall|i: int| 0 <= i < a.errors@.len() ==> #[trigger] b.errors@[i] == a.errors@[i]
    &&& a.warnings@.len() <= b.warnings@.len()
    &&& forall|i: int| 0 <= i < a.warnings@.len() ==> #[trigger] b.warnings@[i] == a.warnings@[i]
}

/// Law: along any run of validator states, each reached from the one before
/// by a recorder call (every recorder ensures `logs_grow`), errors and
/// warnings only grow: an earlier state's logs are prefixes of any later
/// state's, so once `has_errors` holds it holds for good.
pub proof fn lemma_validator_logs_only_grow(run: Seq<ValidationInspector>)
    requires
        forall|k: int| 0 <= k < run.len() - 1 ==> logs_grow(#[trigger] run[k], run[k + 1]),
    ensures
        forall|i: int, j: int| 0 <= i <= j < run.len() ==> logs_grow(#[trigger] run[i], #[trigger] run[j]),
        forall|i: int, j: int| 0 <= i <= j < run.len() && (#[trigger] run[i]).errors@.len() > 0 ==> (#[trigger] run[j]).errors@.len()
            > 0,
    decreases run.len(),
{
    if run.len() > 0 {
        let p = run.drop_last();
        assert forall|k: int| 0 <= k < p.len() - 1 implies logs_grow(#[trigger] p[k], p[k + 1]) by {
            assert(p[k] == run[k] && p[k + 1] == run[k + 1]);
        }
        lemma_validator_logs_only_grow(p);
        let n = run.len() - 1;
        assert forall|i: int, j: int| 0 <= i <= j < run.len() implies logs_grow(#[trigger] run[i], #[trigger] run[j]) by {
            if j < n {
                assert(run[i] == p[i] && run[j] == p[j]);
            } else if i == j {
            } else {
                assert(run[i] == p[i] && run[n - 1] == p[n - 1]);
                assert(logs_grow(p[i], p[n - 1]));
                assert(logs_grow(run[n - 1], run[n]));
            }
        }
        assert forall|i: int, j: int| 0 <= i <= j < run.len() && (#[trigger] run[i]).errors@.len() > 0 implies (#[trigger] run[j]).errors@.len()
            > 0 by {
            assert(logs_grow(run[i], run[j]));
        }
    }
}

impl ValidationInspector {
    /// No distinct entries of `effects_seen` are equal.
    pub open spec fn wf(&self) -> bool {
        forall|i: int, j: int|
            0 <= i < j < self.effects_seen@.len() ==> self.effects_seen@[i]@ != self.effects_seen@[j]@
    }

    /// A validator that has seen nothing.
    pub fn new() -> (v: ValidationInspector)
        ensures
            v.wf(),
            !v.config_parsed,
            !v.profile_built,
            v.style_layers_count == 0,
            v.effects_seen@.len() == 0,
            v.shaders_built@.len() == 0,
            v.cells_modified == 0,
            v.total_cells == 0,
            v.errors@.len() == 0,
            v.warnings@.len() == 0,
    {
        ValidationInspector {
            config_parsed: false,
            profile_built: false,
            style_layers_count: 0,
            effects_seen: Vec::new(),
            shaders_built: Vec::new(),
            cells_modified: 0,
            total_cells: 0,
            errors: Vec::new(),
            warnings: Vec::new(),
        }
    }

    /// Whether any error was recorded.
    pub fn has_errors(&self) -> (r: bool)
        ensures
            r == (self.errors@.len() > 0),
    {
        self.errors.len() > 0
    }

    /// The errors recorded.
    pub fn errors(&self) -> (r: &[String])
        ensures
            r@ == self.errors@,
    {
        self.errors.as_slice()
    }

    /// The warnings recorded.
    pub fn warnings(&self) -> (r: &[String])
        ensures
            r@ == self.warnings@,
    {
        self.warnings.as_slice()
    }

    /// How many distinct phases had an effect.
    pub fn effects_count(&self) -> (r: usize)
        ensures
            r == self.effects_seen@.len(),
    {
        self.effects_seen.len()
    }

    /// How many shader layers were built.
    pub fn shaders_count(&self) -> (r: usize)
        ensures
            r == self.shaders_built@.len(),
    {
        self.shaders_built.len()
    }

    /// How many style layers were extracted.
    pub fn style_layers_count(&self) -> (r: usize)
        ensures
            r == self.style_layers_count,
    {
        self.style_layers_count
    }

    /// Records that the config was parsed.
    pub fn on_config_parsed(&mut self)
        ensures
            final(self).config_parsed,
            final(self).profile_built == old(self).profile_built,
            final(self).errors == old(self).errors,
            final(self).warnings == old(self).warnings,
            final(self).effects_seen == old(self).effects_seen,
            final(self).style_layers_count == old(self).style_layers_count,
            final(self).shaders_built == old(self).shaders_built,
            final(self).cells_modified == old(self).cells_modified,
            final(self).total_cells == old(self).total_cells,
            logs_grow(*old(self), *final(self)),
    {
        self.config_parsed = true;
    }

    /// Records that the profile was built; an error if the config was not parsed first.
    pub fn on_profile_built(&mut self)
        ensures
            final(self).profile_built,
            final(self).config_parsed == old(self).config_parsed,
            final(self).warnings == old(self).warnings,
            final(self).effects_seen == old(self).effects_seen,
            final(self).errors@.len() == old(self).errors@.len() + (if old(self).config_parsed { 0int } else { 1int }),
            forall|i: int| 0 <= i < old(self).errors@.len() ==> final(self).errors@[i] == old(self).errors@[i],
            !old(self).config_parsed ==> final(self).errors@.last()@ == "Profile built before config parsed"@,
            final(self).style_layers_count == old(self).style_layers_count,
            final(self).shaders_built == old(self).shaders_built,
            final(self).cells_modified == old(self).cells_modified,
            final(self).total_cells == old(self).total_cells,
            logs_grow(*old(self), *final(self)),
    {
        if !self.config_parsed {
            self.errors.push(String::from_str("Profile built before config parsed"));
        }
        self.profile_built = true;
    }

    /// Records how many style layers were extracted; an error if the profile
    /// was not built first, a warning if there are none.
    pub fn on_style_layers_extracted(&mut self, count: usize)
        ensures
            final(self).style_layers_count == count,
            final(self).config_parsed == old(self).config_parsed,
            final(self).profile_built == old(self).profile_built,
            final(self).effects_seen == old(self).effects_seen,
            final(self).errors@.len() == old(self).errors@.len() + (if old(self).profile_built { 0int } else { 1int }),
            forall|i: int| 0 <= i < old(self).errors@.len() ==> final(self).errors@[i] == old(self).errors@[i],
            !old(self).profile_built ==> final(self).errors@.last()@ == "Style layers extracted before profile built"@,
            final(self).warnings@.len() == old(self).warnings@.len() + (if count == 0 { 1int } else { 0int }),
            forall|i: int| 0 <= i < old(self).warnings@.len() ==> final(self).warnings@[i] == old(self).warnings@[i],
            count == 0 ==> final(self).warnings@.last()@ == "No style layers extracted"@,
            final(self).shaders_built == old(self).shaders_built,
            final(self).cells_modified == old(self).cells_modified,
            final(self).total_cells == old(self).total_cells,
            logs_grow(*old(self), *final(self)),
    {
        if !self.profile_built {
            self.errors.push(String::from_str("Style layers extracted before profile built"));
        }
        self.style_layers_count = count;
        if count == 0 {
            self.warnings.push(String::from_str("No style layers extracted"));
        }
    }

    /// Records that a phase was entered; an error if the profile was not built first.
    pub fn on_phase_entered(&mut self, phase: AnimationPhase)
        ensures
            final(self).config_parsed == old(self).config_parsed,
            final(self).profile_built == old(self).profile_built,
            final(self).warnings == old(self).warnings,
            final(self).effects_seen == old(self).effects_seen,
            final(self).errors@.len() == old(self).errors@.len() + (if old(self).profile_built { 0int } else { 1int }),
            forall|i: int| 0 <= i < old(self).errors@.len() ==> final(self).errors@[i] == old(self).errors@[i],
            !old(self).profile_built ==> final(self).errors@.last()@ == "Phase entered before profile built"@,
            final(self).style_layers_count == old(self).style_layers_count,
            final(self).shaders_built == old(self).shaders_built,
            final(self).cells_modified == old(self).cells_modified,
            final(self).total_cells == old(self).total_cells,
            logs_grow(*old(self), *final(self)),
    {
        if !self.profile_built {
            self.errors.push(String::from_str("Phase entered before profile built"));
        }
    }

    /// Records that a phase had (or had no) style effect.
    pub fn on_effect_extracted(&mut self, phase: AnimationPhase, has_effect: bool)
        requires
            old(self).wf(),
        ensures
            final(self).wf(),
            final(self).errors == old(self).errors,
            final(self).warnings == old(self).warnings,
            texts(final(self).effects_seen@).to_set() == (if has_effect {
                texts(old(self).effects_seen@).to_set().insert(spec_phase_name(phase))
            } else {
                texts(old(self).effects_seen@).to_set()
            }),
            final(self).config_parsed == old(self).config_parsed,
            final(self).profile_built == old(self).profile_built,
            final(self).style_layers_count == old(self).style_layers_count,
            final(self).shaders_built == old(self).shaders_built,
            final(self).cells_modified == old(self).cells_modified,
            final(self).total_cells == old(self).total_cells,
            logs_grow(*old(self), *final(self)),
    {
        if has_effect {
            let name = String::from_str(phase_name(phase));
            let mut found = false;
            let mut i: usize = 0;
            while i < self.effects_seen.len()
                invariant
                    i <= self.effects_seen@.len(),
                    found == exists|j: int| 0 <= j < i && self.effects_seen@[j]@ == name@,
                decreases self.effects_seen.len() - i,
            {
                if self.effects_seen[i] == name {
                    found = true;
                }
                i = i + 1;
            }
            let ghost before = self.effects_seen@;
            if !found {
                self.effects_seen.push(name);
                proof {
                    assert(texts(self.effects_seen@) =~= texts(before).push(name@));
                    assert forall|x: Seq<char>| texts(self.effects_seen@).contains(x) <==> (texts(before).contains(x)
                        || x == name@) by {
                        if texts(self.effects_seen@).contains(x) {
                            let k = choose|k: int| 0 <= k < texts(self.effects_seen@).len() && texts(self.effects_seen@)[k] == x;
                            if k < before.len() {
                                assert(texts(before)[k] == x);
                            }
                        }
                        if texts(before).contains(x) {
                            let k = choose|k: int| 0 <= k < texts(before).len() && texts(before)[k] == x;
                            assert(texts(self.effects_seen@)[k] == x);
                        }
                        if x == name@ {
                            assert(texts(self.effects_seen@)[before.len() as int] == x);
                        }
                    }
                    assert forall|x: Seq<char>| #[trigger] texts(self.effects_seen@).to_set().contains(x)
                        == texts(before).to_set().insert(name@).contains(x) by {
                        assert(texts(self.effects_seen@).to_set().contains(x) == texts(self.effects_seen@).contains(x));
                        assert(texts(before).to_set().contains(x) == texts(before).contains(x));
                    }
                    assert(texts(self.effects_seen@).to_set() =~= texts(before).to_set().insert(name@));
                }
            } else {
                proof {
                    let j = choose|j: int| 0 <= j < i && self.effects_seen@[j]@ == name@;
                    assert(texts(before)[j] == name@);
                    assert(texts(before).contains(name@));
                    assert(texts(before).to_set().contains(name@));
                    assert(texts(before).to_set() =~= texts(before).to_set().insert(name@));
                }
            }
        }
    }

    /// Records a built shader layer.
    pub fn on_shader_layer_built(&mut self, shader_name: &str)
        ensures
            final(self).shaders_built@.len() == old(self).shaders_built@.len() + 1,
            final(self).shaders_built@.last()@ == shader_name@,
            final(self).errors == old(self).errors,
            final(self).warnings == old(self).warnings,
            final(self).effects_seen == old(self).effects_seen,
            final(self).config_parsed == old(self).config_parsed,
            final(self).profile_built == old(self).profile_built,
            final(self).style_layers_count == old(self).style_layers_count,
            final(self).cells_modified == old(self).cells_modified,
            final(self).total_cells == old(self).total_cells,
            logs_grow(*old(self), *final(self)),
    {
        self.shaders_built.push(String::from_str(shader_name));
    }

    /// Records a cell modified by a shader.
    pub fn on_shader_applied(&mut self)
        requires
            old(self).cells_modified < usize::MAX,
        ensures
            final(self).cells_modified == old(self).cells_modified + 1,
            final(self).errors == old(self).errors,
            final(self).warnings == old(self).warnings,
            final(self).effects_seen == old(self).effects_seen,
            final(self).config_parsed == old(self).config_parsed,
            final(self).profile_built == old(self).profile_built,
            final(self).style_layers_count == old(self).style_layers_count,
            final(self).shaders_built == old(self).shaders_built,
            final(self).total_cells == old(self).total_cells,
            logs_grow(*old(self), *final(self)),
    {
        self.cells_modified = self.cells_modified + 1;
    }

    /// Records a finished frame; a warning if no cell was modified.
    pub fn on_frame_complete(&mut self, width: u16, height: u16)
        ensures
            final(self).total_cells == width * height,
            final(self).cells_modified == old(self).cells_modified,
            final(self).errors == old(self).errors,
            final(self).effects_seen == old(self).effects_seen,
            final(self).warnings@.len() == old(self).warnings@.len() + (if old(self).cells_modified == 0 { 1int } else { 0int }),
            forall|i: int| 0 <= i < old(self).warnings@.len() ==> final(self).warnings@[i] == old(self).warnings@[i],
            old(self).cells_modified == 0 ==> final(self).warnings@.last()@ == "Frame complete but no cells were modified"@,
            final(self).config_parsed == old(self).config_parsed,
            final(self).profile_built == old(self).profile_built,
            final(self).style_layers_count == old(self).style_layers_count,
            final(self).shaders_built == old(self).shaders_built,
            logs_grow(*old(self), *final(self)),
    {
        assert((width as usize) * (height as usize) <= 0xFFFF * 0xFFFF) by (nonlinear_arith)
            requires
                width <= 0xFFFF,
                height <= 0xFFFF,
        ;
        self.total_cells = (width as usize) * (height as usize);
        if self.cells_modified == 0 {
            self.warnings.push(String::from_str("Frame complete but no cells were modified"));
        }
    }
}

impl Default for ValidationInspector {
    fn default() -> (v: ValidationInspector)
        ensures
            v.wf(),
            !v.config_parsed,
            !v.profile_built,
            v.style_layers_count == 0,
            v.effects_seen@.len() == 0,
            v.shaders_built@.len() == 0,
            v.cells_modified == 0,
            v.total_cells == 0,
            v.errors@.len() == 0,
            v.warnings@.len() == 0,
    {
        ValidationInspector::new()
    }
}

/// Where a sampler took a cell from.
#[derive(Debug, Clone)]
pub struct SamplerResult {
    pub dest_x: u16,
    pub dest_y: u16,
    pub src_x: Option<u16>,
    pub src_y: Option<u16>,
    pub sampler: String,
}

/// Whether a mask left a cell visible.
#[derive(Debug, Clone)]
pub struct MaskResult {
    pub x: u16,
    pub y: u16,
    pub visible: bool,
    pub mask: String,
}

/// Number of results among the first `k` whose cell is visible.
pub open spec fn visible_count(rs: Seq<MaskResult>, k: int) -> int
    decreases k,
{
    if k <= 0 {
        0
    } else {
        visible_count(rs, k - 1) + (if rs[k - 1].visible { 1int } else { 0int })
    }
}

proof fn lemma_visible_count_bound(rs: Seq<MaskResult>, k: int)
    requires
        0 <= k <= rs.len(),
    ensures
        0 <= visible_count(rs, k) <= k,
    decreases k,
{
    if k > 0 {
        lemma_visible_count_bound(rs, k - 1);
    }
}

/// Mask coverage as (visible cells, checked cells).
pub fn mask_coverage(results: &Vec<MaskResult>) -> (r: (usize, usize))
    ensures
        r.0 == visible_count(results@, results@.len() as int),
        r.1 == results@.len(),
        r.0 <= r.1,
{
    let mut visible: usize = 0;
    let mut i: usize = 0;
    while i < results.len()
        invariant
            i <= results.len(),
            visible == visible_count(results@, i as int),
        decreases results.len() - i,
    {
        proof {
            lemma_visible_count_bound(results@, i as int);
        }
        if results[i].visible {
            visible = visible + 1;
        }
        i = i + 1;
    }
    proof {
        lemma_visible_count_bound(results@, results@.len() as int);
    }
    (visible, results.len())
}

/// The sampler moved the cell: its source is not its destination.
pub open spec fn displaced(r: SamplerResult) -> bool {
    r.src_x != Some(r.dest_x) || r.src_y != Some(r.dest_y)
}

/// Number of displaced results among the first `k`.
pub open spec fn displaced_count(rs: Seq<SamplerResult>, k: int) -> int
    decreases k,
{
    if k <= 0 {
        0
    } else {
        displaced_count(rs, k - 1) + (if displaced(rs[k - 1]) { 1int } else { 0int })
    }
}

proof fn lemma_displaced_count_bound(rs: Seq<SamplerResult>, k: int)
    requires
        0 <= k <= rs.len(),
    ensures
        0 <= displaced_count(rs, k) <= k,
    decreases k,
{
    if k > 0 {
        lemma_displaced_count_bound(rs, k - 1);
    }
}

/// Number of cells a sampler moved.
pub fn sampler_displacement_count(results: &Vec<SamplerResult>) -> (r: usize)
    ensures
        r == displaced_count(results@, results@.len() as int),
{
    let mut n: usize = 0;
    let mut i: usize = 0;
    while i < results.len()
        invariant
            i <= results.len(),
            n == displaced_count(results@, i as int),
        decreases results.len() - i,
    {
        proof {
            lemma_displaced_count_bound(results@, i as int);
        }
        let r = &results[i];
        let moved = match (r.src_x, r.src_y) {
            (Some(sx), Some(sy)) => sx != r.dest_x || sy != r.dest_y,
            _ => true,
        };
        if moved {
            n = n + 1;
        }
        i = i + 1;
    }
    n
}

/// The visibility of cell (x, y) after the first `k` results: the last of
/// them that names the cell decides; cells no result names are visible.
pub open spec fn cell_visible(rs: Seq<MaskResult>, k: int, x: int, y: int) -> bool
    decreases k,
{
    if k <= 0 {
        true
    } else if rs[k - 1].x == x && rs[k - 1].y == y {
        rs[k - 1].visible
    } else {
        cell_visible(rs, k - 1, x, y)
    }
}

/// A grid of visibility, rows of `width` cells, `height` rows: the last mask
/// result for a cell decides it, results outside the grid are ignored, and
/// cells without a result are visible.
pub fn visibility_map(width: u16, height: u16, results: &Vec<MaskResult>) -> (m: Vec<Vec<bool>>)
    ensures
        m@.len() == height,
        forall|y: int| #![trigger m@[y]] 0 <= y < height ==> m@[y]@.len() == width,
        forall|y: int, x: int| 0 <= y < height && 0 <= x < width ==> #[trigger] m@[y]@[x] == cell_visible(
            results@,
            results@.len() as int,
            x,
            y,
        ),
{
    let mut m: Vec<Vec<bool>> = Vec::new();
    let mut y: u16 = 0;
    while y < height
        invariant
            y <= height,
            m@.len() == y,
            forall|r: int| #![trigger m@[r]] 0 <= r < y ==> m@[r]@.len() == width && forall|c: int|
                0 <= c < width ==> #[trigger] m@[r]@[c] == true,
        decreases height - y,
    {
        let mut row: Vec<bool> = Vec::new();
        let mut x: u16 = 0;
        while x < width
            invariant
                x <= width,
                row@.len() == x,
                forall|c: int| 0 <= c < x ==> #[trigger] row@[c] == true,
            decreases width - x,
        {
            row.push(true);
            x = x + 1;
        }
        m.push(row);
        y = y + 1;
    }
    let mut i: usize = 0;
    while i < results.len()
        invariant
            i <= results.len(),
            m@.len() == height,
            forall|r: int| #![trigger m@[r]] 0 <= r < height ==> m@[r]@.len() == width,
            forall|r: int, c: int| 0 <= r < height && 0 <= c < width ==> #[trigger] m@[r]@[c] == cell_visible(
                results@,
                i as int,
                c,
                r,
            ),
        decreases results.len() - i,
    {
        let res = &results[i];
        if res.y < height && res.x < width {
            let ry = res.y as usize;
            let rx = res.x as usize;
            let ghost before = m@;
            let mut row: Vec<bool> = Vec::new();
            std::mem::swap(&mut row, &mut m[ry]);
            row.set(rx, res.visible);
            m.set(ry, row);
            proof {
                assert forall|r: int, c: int| 0 <= r < height && 0 <= c < width implies #[trigger] m@[r]@[c]
                    == cell_visible(results@, i + 1, c, r) by {
                    if r != ry as int {
                        assert(m@[r] == before[r]);
                    }
                }
            }
        }
        i = i + 1;
    }
    m
}

/// A pipeline-inspector hook that rendering an item fires.
#[derive(Debug, PartialEq, Eq)]
pub enum RenderHook {
    /// The item's phase is being rendered.
    PhaseEntered,
    /// The phase's style effect was looked up.
    EffectExtracted,
    /// A style of `target` (`frame`, `border` or `text`) was interpolated by
    /// the effect named `effect_name`.
    StyleInterpolated { effect_name: String, target: String },
    /// The render plan item is about to be drawn.
    RenderPlanCreated,
}

/// A hook as values.
pub enum HookView {
    PhaseEntered,
    EffectExtracted,
    StyleInterpolated { effect_name: Seq<char>, target: Seq<char> },
    RenderPlanCreated,
}

/// A hook's value.
pub open spec fn hook_view(h: RenderHook) -> HookView {
    match h {
        RenderHook::PhaseEntered => HookView::PhaseEntered,
        RenderHook::EffectExtracted => HookView::EffectExtracted,
        RenderHook::StyleInterpolated { effect_name, target } => HookView::StyleInterpolated {
            effect_name: effect_name@,
            target: target@,
        },
        RenderHook::RenderPlanCreated => HookView::RenderPlanCreated,
    }
}

/// The interpolation hooks of the frame, border and text styles, in that order.
pub open spec fn style_hooks(effect_name: Seq<char>) -> Seq<HookView> {
    seq![
        HookView::StyleInterpolated { effect_name, target: "frame"@ },
        HookView::StyleInterpolated { effect_name, target: "border"@ },
        HookView::StyleInterpolated { effect_name, target: "text"@ },
    ]
}

/// The hooks a render fires, in order: the phase, the effect lookup, then
/// style interpolation of frame, border and text (by the phase's effect when
/// it has one that is not a shader, or by the fade when there is no effect),
/// and last the render plan.
pub open spec fn spec_render_hooks(
    has_effect: bool,
    effect_name: Seq<char>,
    effect_is_shader: bool,
    has_fade: bool,
) -> Seq<HookView> {
    seq![HookView::PhaseEntered, HookView::EffectExtracted] + (if has_effect && !effect_is_shader {
        style_hooks(effect_name)
    } else if !has_effect && has_fade {
        style_hooks("FadeToBlack"@)
    } else {
        Seq::empty()
    }) + seq![HookView::RenderPlanCreated]
}

fn push_style_hooks(out: &mut Vec<RenderHook>, effect_name: &str)
    ensures
        final(out)@.map_values(|h: RenderHook| hook_view(h)) == old(out)@.map_values(|h: RenderHook| hook_view(h))
            + style_hooks(effect_name@),
{
    let ghost before = old(out)@.map_values(|h: RenderHook| hook_view(h));
    out.push(RenderHook::StyleInterpolated { effect_name: String::from_str(effect_name), target: String::from_str("frame") });
    out.push(RenderHook::StyleInterpolated { effect_name: String::from_str(effect_name), target: String::from_str("border") });
    out.push(RenderHook::StyleInterpolated { effect_name: String::from_str(effect_name), target: String::from_str("text") });
    proof {
        assert(out@.map_values(|h: RenderHook| hook_view(h)) =~= before + style_hooks(effect_name@));
    }
}

/// The inspector hooks a render fires, in order. `has_effect` says whether
/// the phase has a style effect, `effect_name` is its name and
/// `effect_is_shader` whether it works through a shader; `has_fade` whether
/// the appearance fades in this phase.
pub fn render_hooks(has_effect: bool, effect_name: &str, effect_is_shader: bool, has_fade: bool) -> (r: Vec<RenderHook>)
    ensures
        r@.map_values(|h: RenderHook| hook_view(h)) == spec_render_hooks(has_effect, effect_name@, effect_is_shader, has_fade),
{
    let mut out: Vec<RenderHook> = Vec::new();
    out.push(RenderHook::PhaseEntered);
    out.push(RenderHook::EffectExtracted);
    let ghost start = out@.map_values(|h: RenderHook| hook_view(h));
    proof {
        assert(start =~= seq![HookView::PhaseEntered, HookView::EffectExtracted]);
    }
    if has_effect && !effect_is_shader {
        push_style_hooks(&mut out, effect_name);
    } else if !has_effect && has_fade {
        push_style_hooks(&mut out, "FadeToBlack");
        proof {
            reveal_strlit("FadeToBlack");
        }
    } else {
        proof {
            assert(out@.map_values(|h: RenderHook| hook_view(h)) =~= start + Seq::<HookView>::empty());
        }
    }
    let ghost mid = out@.map_values(|h: RenderHook| hook_view(h));
    out.push(RenderHook::RenderPlanCreated);
    proof {
        assert(out@.map_values(|h: RenderHook| hook_view(h)) =~= mid + seq![HookView::RenderPlanCreated]);
    }
    out
}

} // verus!
