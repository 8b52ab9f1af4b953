//! Where a recipe's effects live in its configuration document.
//!
//! Each effect is reported with its place in the document (for messages) and
//! the phase it runs in.

use vstd::prelude::*;
use vstd::string::StringExecFns;
use crate::json::{JsonValue, JValue, arr_view, lemma_arr_view_index};
use crate::recipe::{Phase, field};
use crate::recipes::RecipeMeta;
use crate::text::{dec, push_decimal};

verus! {

/// A shader found in the configuration.
#[derive(Debug)]
pub struct ShaderRef<'a> {
    pub shader: &'a JsonValue,
    pub location: String,
    pub phase: Phase,
}

/// A mask, sampler or filter found in the configuration.
#[derive(Debug)]
pub struct StageRef<'a> {
    pub value: &'a JsonValue,
    pub location: String,
    pub phase: Phase,
}

/// A mask found in the configuration.
pub type MaskRef<'a> = StageRef<'a>;

/// A sampler found in the configuration.
pub type SamplerRef<'a> = StageRef<'a>;

/// A filter found in the configuration.
pub type FilterRef<'a> = StageRef<'a>;

/// A style layer and its index.
#[derive(Debug)]
pub struct StyleLayerRef<'a> {
    pub style: &'a JsonValue,
    pub index: usize,
}

/// A found item as a value: where, in which phase, and what.
pub struct Found {
    pub location: Seq<char>,
    pub phase: Phase,
    pub value: JValue,
}

/// Reads a field of an object.
pub fn get_field<'a>(v: &'a JsonValue, key: &str) -> (r: Option<&'a JsonValue>)
    ensures
        match r {
            Some(x) => field(v.jv(), key@) == Some(x.jv()),
            None => field(v.jv(), key@) is None,
        },
{
    v.get_lit(key)
}

/// The place of a style layer's field: `pipeline.styles[i].<suffix>`.
pub open spec fn style_location(i: nat, suffix: Seq<char>) -> Seq<char> {
    "pipeline.styles["@ + dec(i) + "]."@ + suffix
}

/// The shader of one of a style layer's phase effects, when that effect is
/// present, not `null`, and has a `shader` field.
pub open spec fn effect_shader(style: JValue, i: nat, effect: Seq<char>, phase: Phase) -> Seq<Found> {
    match field(style, effect) {
        Some(e) => if e is Null {
            Seq::empty()
        } else {
            match field(e, "shader"@) {
                Some(s) => seq![Found { location: style_location(i, effect + ".shader"@), phase, value: s }],
                None => Seq::empty(),
            }
        },
        None => Seq::empty(),
    }
}

/// The shaders of style layer `i`: enter, dwell and exit effect shaders, then
/// a non-null legacy `spatial_shader` (reported in the enter phase).
pub open spec fn layer_shaders(style: JValue, i: nat) -> Seq<Found> {
    effect_shader(style, i, "enter_effect"@, Phase::Enter) + effect_shader(style, i, "dwell_effect"@, Phase::Dwell)
        + effect_shader(style, i, "exit_effect"@, Phase::Exit) + match field(style, "spatial_shader"@) {
        Some(s) => if s is Null {
            Seq::empty()
        } else {
            seq![Found { location: style_location(i, "spatial_shader"@), phase: Phase::Enter, value: s }]
        },
        None => Seq::empty(),
    }
}

/// The shaders of the first `k` style layers.
pub open spec fn shaders_of_layers(styles: Seq<JValue>, k: int) -> Seq<Found>
    decreases k,
{
    if k <= 0 {
        Seq::empty()
    } else {
        shaders_of_layers(styles, k - 1) + layer_shaders(styles[k - 1], (k - 1) as nat)
    }
}

/// The style layers of a configuration: `pipeline.styles` when it is an array.
pub open spec fn style_list(cfg: JValue) -> Seq<JValue> {
    match field(cfg, "pipeline"@) {
        Some(p) => match field(p, "styles"@) {
            Some(JValue::Array(a)) => a,
            _ => Seq::empty(),
        },
        None => Seq::empty(),
    }
}

/// All shaders of a configuration, layer by layer.
pub open spec fn spec_shaders(cfg: JValue) -> Seq<Found> {
    shaders_of_layers(style_list(cfg), style_list(cfg).len() as int)
}

/// A shader reference's value.
pub open spec fn shader_found(r: ShaderRef) -> Found {
    Found { location: r.location@, phase: r.phase, value: r.shader.jv() }
}

/// A stage reference's value.
pub open spec fn stage_found(r: StageRef) -> Found {
    Found { location: r.location@, phase: r.phase, value: r.value.jv() }
}

fn push_effect_shader<'a>(
    out: &mut Vec<ShaderRef<'a>>,
    style: &'a JsonValue,
    i: usize,
    effect: &str,
    phase: Phase,
)
    ensures
        final(out)@.map_values(|r: ShaderRef| shader_found(r)) == old(out)@.map_values(|r: ShaderRef| shader_found(r))
            + effect_shader(style.jv(), i as nat, effect@, phase),
{
    let ghost before = old(out)@.map_values(|r: ShaderRef| shader_found(r));
    match get_field(style, effect) {
        Some(e) => {
            if let JsonValue::Null = e {
                proof {
                    assert(out@.map_values(|r: ShaderRef| shader_found(r)) =~= before + Seq::<Found>::empty());
                }
            } else {
                match get_field(e, "shader") {
                    Some(s) => {
                        let mut loc = String::from_str("pipeline.styles[");
                        push_decimal(&mut loc, i as u64);
                        loc.append("].");
                        loc.append(effect);
                        loc.append(".shader");
                        proof {
                            reveal_strlit("shader");
                        }
                        out.push(ShaderRef { shader: s, location: loc, phase });
                        proof {
                            assert(loc@ =~= style_location(i as nat, effect@ + ".shader"@));
                            assert(out@.map_values(|r: ShaderRef| shader_found(r)) =~= before + seq![
                                Found { location: style_location(i as nat, effect@ + ".shader"@), phase, value: s.jv() },
                            ]);
                        }
                    },
                    None => {
                        proof {
                            assert(out@.map_values(|r: ShaderRef| shader_found(r)) =~= before + Seq::<Found>::empty());
                        }
                    },
                }
            }
        },
        None => {
            proof {
                assert(out@.map_values(|r: ShaderRef| shader_found(r)) =~= before + Seq::<Found>::empty());
            }
        },
    }
}

/// The shaders a configuration uses, layer by layer, each with its place and phase.
pub fn shaders(cfg: &JsonValue) -> (r: Vec<ShaderRef<'_>>)
    ensures
        r@.map_values(|x: ShaderRef| shader_found(x)) == spec_shaders(cfg.jv()),
{
    let mut out: Vec<ShaderRef> = Vec::new();
    let styles: &Vec<JsonValue> = match get_field(cfg, "pipeline") {
        Some(p) => match get_field(p, "styles") {
            Some(JsonValue::Array(a)) => a,
            _ => {
                proof {
                    assert(out@.map_values(|x: ShaderRef| shader_found(x)) =~= Seq::<Found>::empty());
                }
                return out;
            },
        },
        None => {
            proof {
                assert(out@.map_values(|x: ShaderRef| shader_found(x)) =~= Seq::<Found>::empty());
            }
            return out;
        },
    };
    let ghost sl = style_list(cfg.jv());
    proof {
        lemma_arr_view_index(styles@);
        assert(sl == arr_view(styles@));
        assert(out@.map_values(|x: ShaderRef| shader_found(x)) =~= shaders_of_layers(sl, 0));
    }
    let mut i: usize = 0;
    while i < styles.len()
        invariant
            i <= styles@.len(),
            sl.len() == styles@.len(),
            forall|j: int| 0 <= j < styles@.len() ==> #[trigger] sl[j] == styles@[j].jv(),
            out@.map_values(|x: ShaderRef| shader_found(x)) == shaders_of_layers(sl, i as int),
        decreases styles.len() - i,
    {
        let style = &styles[i];
        push_effect_shader(&mut out, style, i, "enter_effect", Phase::Enter);
        push_effect_shader(&mut out, style, i, "dwell_effect", Phase::Dwell);
        push_effect_shader(&mut out, style, i, "exit_effect", Phase::Exit);
        let ghost before = out@.map_values(|x: ShaderRef| shader_found(x));
        match get_field(style, "spatial_shader") {
            Some(s) => {
                if let JsonValue::Null = s {
                    proof {
                        assert(out@.map_values(|x: ShaderRef| shader_found(x)) =~= before + Seq::<Found>::empty());
                    }
                } else {
                    let mut loc = String::from_str("pipeline.styles[");
                    push_decimal(&mut loc, i as u64);
                    loc.append("].spatial_shader");
                    out.push(ShaderRef { shader: s, location: loc, phase: Phase::Enter });
                    proof {
                        reveal_strlit("pipeline.styles[");
                        reveal_strlit("].spatial_shader");
                        reveal_strlit("].");
                        reveal_strlit("spatial_shader");
                        assert(loc@ =~= style_location(i as nat, "spatial_shader"@));
                        assert(out@.map_values(|x: ShaderRef| shader_found(x)) =~= before + seq![
                            Found { location: style_location(i as nat, "spatial_shader"@), phase: Phase::Enter, value: s.jv() },
                        ]);
                    }
                }
            },
            None => {
                proof {
                    assert(out@.map_values(|x: ShaderRef| shader_found(x)) =~= before + Seq::<Found>::empty());
                }
            },
        }
        proof {
            assert(sl[i as int] == style.jv());
            assert(shaders_of_layers(sl, i + 1) =~= shaders_of_layers(sl, i as int) + layer_shaders(sl[i as int], i as nat));
        }
        i = i + 1;
    }
    out
}


/// The entries a stage names for a phase: every element of an array, or the
/// value itself.
pub open spec fn stage_items(val: JValue) -> Seq<JValue> {
    match val {
        JValue::Array(a) => a,
        _ => seq![val],
    }
}

/// The reference for one entry, unless its `type` is `"none"`.
pub open spec fn stage_entry(m: JValue, location: Seq<char>, phase: Phase) -> Seq<Found> {
    if crate::recipe::field_str(m, "type"@) == Some("none"@) {
        Seq::empty()
    } else {
        seq![Found { location, phase, value: m }]
    }
}

/// The references for the first `k` entries, in order.
pub open spec fn stage_entries(items: Seq<JValue>, location: Seq<char>, phase: Phase, k: int) -> Seq<Found>
    decreases k,
{
    if k <= 0 {
        Seq::empty()
    } else {
        stage_entries(items, location, phase, k - 1) + stage_entry(items[k - 1], location, phase)
    }
}

/// The entries of stage `key` for one phase, in order, leaving out those whose
/// `type` is `"none"`; each is placed at `pipeline.<key>.<phase name>`.
pub open spec fn phase_stage(stage: JValue, name: Seq<char>, phase: Phase, key: Seq<char>) -> Seq<Found> {
    match field(stage, name) {
        Some(val) => stage_entries(
            stage_items(val),
            "pipeline."@ + key + "."@ + name,
            phase,
            stage_items(val).len() as int,
        ),
        None => Seq::empty(),
    }
}

/// The entries of stage `key` (`mask`, `sampler` or `filter`) for the enter,
/// dwell and exit phases, in that order.
pub open spec fn spec_stage_refs(cfg: JValue, key: Seq<char>) -> Seq<Found> {
    match field(cfg, "pipeline"@) {
        Some(p) => match field(p, key) {
            Some(st) => phase_stage(st, "enter"@, Phase::Enter, key) + phase_stage(st, "dwell"@, Phase::Dwell, key)
                + phase_stage(st, "exit"@, Phase::Exit, key),
            None => Seq::empty(),
        },
        None => Seq::empty(),
    }
}

fn push_stage_entry<'a>(out: &mut Vec<StageRef<'a>>, m: &'a JsonValue, location: &String, phase: Phase)
    ensures
        final(out)@.map_values(|r: StageRef| stage_found(r)) == old(out)@.map_values(|r: StageRef| stage_found(r))
            + stage_entry(m.jv(), location@, phase),
{
    let ghost before = old(out)@.map_values(|r: StageRef| stage_found(r));
    let is_none = match crate::recipe::get_str(m, "type") {
        Some(t) => {
            let n = String::from_str("none");
            t == n
        },
        None => false,
    };
    proof {
        reveal_strlit("none");
    }
    if is_none {
        proof {
            assert(out@.map_values(|r: StageRef| stage_found(r)) =~= before + Seq::<Found>::empty());
        }
    } else {
        out.push(StageRef { value: m, location: location.clone(), phase });
        proof {
            assert(out@.map_values(|r: StageRef| stage_found(r)) =~= before + seq![
                Found { location: location@, phase, value: m.jv() },
            ]);
        }
    }
}

fn push_phase_stage<'a>(out: &mut Vec<StageRef<'a>>, stage: &'a JsonValue, name: &str, phase: Phase, key: &str)
    ensures
        final(out)@.map_values(|r: StageRef| stage_found(r)) == old(out)@.map_values(|r: StageRef| stage_found(r))
            + phase_stage(stage.jv(), name@, phase, key@),
{
    let ghost before = old(out)@.map_values(|r: StageRef| stage_found(r));
    match get_field(stage, name) {
        Some(val) => {
            let mut loc = String::from_str("pipeline.");
            loc.append(key);
            loc.append(".");
            loc.append(name);
            let ghost items = stage_items(val.jv());
            match val {
                JsonValue::Array(a) => {
                    proof {
                        lemma_arr_view_index(a@);
                        assert(items == arr_view(a@));
                        assert(out@.map_values(|r: StageRef| stage_found(r)) =~= before + stage_entries(items, loc@, phase, 0));
                    }
                    let mut i: usize = 0;
                    while i < a.len()
                        invariant
                            i <= a@.len(),
                            items.len() == a@.len(),
                            forall|j: int| 0 <= j < a@.len() ==> #[trigger] items[j] == a@[j].jv(),
                            out@.map_values(|r: StageRef| stage_found(r)) == before + stage_entries(items, loc@, phase, i as int),
                        decreases a.len() - i,
                    {
                        let ghost mid = out@.map_values(|r: StageRef| stage_found(r));
                        push_stage_entry(out, &a[i], &loc, phase);
                        proof {
                            assert(items[i as int] == a@[i as int].jv());
                            assert(stage_entries(items, loc@, phase, i + 1) == stage_entries(items, loc@, phase, i as int)
                                + stage_entry(items[i as int], loc@, phase));
                            assert(out@.map_values(|r: StageRef| stage_found(r)) =~= before + stage_entries(items, loc@, phase, i + 1));
                        }
                        i = i + 1;
                    }
                },
                _ => {
                    push_stage_entry(out, val, &loc, phase);
                    proof {
                        assert(items == seq![val.jv()]);
                        assert(stage_entries(items, loc@, phase, 0) =~= Seq::<Found>::empty());
                        assert(stage_entries(items, loc@, phase, 1) =~= Seq::<Found>::empty() + stage_entry(items[0], loc@, phase));
                    }
                },
            }
        },
        None => {
            proof {
                assert(out@.map_values(|r: StageRef| stage_found(r)) =~= before + Seq::<Found>::empty());
            }
        },
    }
}

/// The entries of stage `key` for the three phases.
pub fn stage_refs<'a>(cfg: &'a JsonValue, key: &str) -> (r: Vec<StageRef<'a>>)
    ensures
        r@.map_values(|x: StageRef| stage_found(x)) == spec_stage_refs(cfg.jv(), key@),
{
    let mut out: Vec<StageRef> = Vec::new();
    proof {
        assert(out@.map_values(|x: StageRef| stage_found(x)) =~= Seq::<Found>::empty());
    }
    match get_field(cfg, "pipeline") {
        Some(p) => match get_field(p, key) {
            Some(st) => {
                push_phase_stage(&mut out, st, "enter", Phase::Enter, key);
                push_phase_stage(&mut out, st, "dwell", Phase::Dwell, key);
                push_phase_stage(&mut out, st, "exit", Phase::Exit, key);
                proof {
                    reveal_strlit("enter");
                    reveal_strlit("dwell");
                    reveal_strlit("exit");
                    assert(Seq::<Found>::empty() + phase_stage(st.jv(), "enter"@, Phase::Enter, key@) =~= phase_stage(
                        st.jv(),
                        "enter"@,
                        Phase::Enter,
                        key@,
                    ));
                }
            },
            None => {},
        },
        None => {},
    }
    out
}

/// The masks of a configuration.
pub fn masks(cfg: &JsonValue) -> (r: Vec<MaskRef<'_>>)
    ensures
        r@.map_values(|x: StageRef| stage_found(x)) == spec_stage_refs(cfg.jv(), "mask"@),
{
    stage_refs(cfg, "mask")
}

/// The samplers of a configuration.
pub fn samplers(cfg: &JsonValue) -> (r: Vec<SamplerRef<'_>>)
    ensures
        r@.map_values(|x: StageRef| stage_found(x)) == spec_stage_refs(cfg.jv(), "sampler"@),
{
    stage_refs(cfg, "sampler")
}

/// The filters of a configuration.
pub fn filters(cfg: &JsonValue) -> (r: Vec<FilterRef<'_>>)
    ensures
        r@.map_values(|x: StageRef| stage_found(x)) == spec_stage_refs(cfg.jv(), "filter"@),
{
    stage_refs(cfg, "filter")
}

/// The style layers of a configuration, with their indices.
pub fn style_layers(cfg: &JsonValue) -> (r: Vec<StyleLayerRef<'_>>)
    ensures
        r@.len() == style_list(cfg.jv()).len(),
        forall|i: int| 0 <= i < r@.len() ==> (#[trigger] r@[i]).index == i && r@[i].style.jv() == style_list(cfg.jv())[i],
{
    let mut out: Vec<StyleLayerRef> = Vec::new();
    let styles: &Vec<JsonValue> = match get_field(cfg, "pipeline") {
        Some(p) => match get_field(p, "styles") {
            Some(JsonValue::Array(a)) => a,
            _ => {
                return out;
            },
        },
        None => {
            return out;
        },
    };
    proof {
        lemma_arr_view_index(styles@);
    }
    let mut i: usize = 0;
    while i < styles.len()
        invariant
            i <= styles@.len(),
            style_list(cfg.jv()) == arr_view(styles@),
            arr_view(styles@).len() == styles@.len(),
            forall|j: int| 0 <= j < styles@.len() ==> #[trigger] arr_view(styles@)[j] == styles@[j].jv(),
            out@.len() == i,
            forall|j: int| 0 <= j < i ==> (#[trigger] out@[j]).index == j && out@[j].style.jv() == styles@[j].jv(),
        decreases styles.len() - i,
    {
        out.push(StyleLayerRef { style: &styles[i], index: i });
        i = i + 1;
    }
    out
}

/// A loaded recipe: its identity and its configuration as a document.
#[derive(Debug)]
pub struct Recipe {
    pub meta: RecipeMeta,
    pub json_cache: JsonValue,
}

impl Recipe {
    /// A recipe with the given identity and configuration document.
    pub fn new(meta: RecipeMeta, config: JsonValue) -> (r: Recipe)
        ensures
            r.meta == meta,
            r.json_cache == config,
    {
        Recipe { meta, json_cache: config }
    }

    /// The recipe's identity.
    pub fn metadata(&self) -> (r: &RecipeMeta)
        ensures
            *r == self.meta,
    {
        &self.meta
    }

    /// The recipe's id.
    pub fn id(&self) -> (r: &str)
        ensures
            r@ == self.meta.id@,
    {
        self.meta.id.as_str()
    }

    /// The recipe's title.
    pub fn title(&self) -> (r: &str)
        ensures
            r@ == self.meta.title@,
    {
        self.meta.title.as_str()
    }

    /// The shaders the recipe uses.
    pub fn shaders(&self) -> (r: Vec<ShaderRef<'_>>)
        ensures
            r@.map_values(|x: ShaderRef| shader_found(x)) == spec_shaders(self.json_cache.jv()),
    {
        shaders(&self.json_cache)
    }

    /// The masks the recipe uses.
    pub fn masks(&self) -> (r: Vec<MaskRef<'_>>)
        ensures
            r@.map_values(|x: StageRef| stage_found(x)) == spec_stage_refs(self.json_cache.jv(), "mask"@),
    {
        masks(&self.json_cache)
    }

    /// The samplers the recipe uses.
    pub fn samplers(&self) -> (r: Vec<SamplerRef<'_>>)
        ensures
            r@.map_values(|x: StageRef| stage_found(x)) == spec_stage_refs(self.json_cache.jv(), "sampler"@),
    {
        samplers(&self.json_cache)
    }

    /// The filters the recipe uses.
    pub fn filters(&self) -> (r: Vec<FilterRef<'_>>)
        ensures
            r@.map_values(|x: StageRef| stage_found(x)) == spec_stage_refs(self.json_cache.jv(), "filter"@),
    {
        filters(&self.json_cache)
    }

    /// The recipe's style layers.
    pub fn style_layers(&self) -> (r: Vec<StyleLayerRef<'_>>)
        ensures
            r@.len() == style_list(self.json_cache.jv()).len(),
            forall|i: int| 0 <= i < r@.len() ==> (#[trigger] r@[i]).index == i && r@[i].style.jv() == style_list(
                self.json_cache.jv(),
            )[i],
    {
        style_layers(&self.json_cache)
    }
}

} // verus!
