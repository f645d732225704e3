//! Panel instances per output, and how a configuration update reaches them.

use vstd::prelude::*;

use crate::config::{
    background_color, background_color_of, configs_equal, output_eq, output_view, same_but_output,
    same_but_output_exec, themed_color, CosmicPanelBackground, CosmicPanelConfig, CosmicPanelOuput,
    PanelAnchor, Rgba,
};

verus! {

/// A live panel: its configuration on one output (`None`: the active output).
#[derive(Debug)]
pub struct PanelInstance {
    pub config: CosmicPanelConfig,
    pub output: Option<String>,
    pub bg_color: Rgba,
}

impl PanelInstance {
    /// Takes a theme color: with the panel's opacity where it follows the theme.
    pub fn set_theme_window_color(&mut self, color: Rgba)
        ensures
            final(self).bg_color == themed_color(old(self).config, color),
            final(self).config == old(self).config,
            final(self).output == old(self).output,
    {
        let mut c = color;
        if let CosmicPanelBackground::ThemeDefault = self.config.background {
            c.a = self.config.opacity;
        }
        self.bg_color = c;
    }
}

/// A panel to create, in creation order.
#[derive(Debug)]
pub struct Recreation {
    pub name: String,
    pub output: Option<String>,
    pub priority: u32,
}

/// Result of applying a configuration.
#[derive(Debug)]
pub enum UpdateOutcome {
    /// every instance already has this configuration
    NoOp,
    /// the instances of this configuration took it in place
    Updated,
    /// these panels were destroyed and are to be created anew, in this order
    Recreated(Vec<Recreation>),
}

/// All panel configurations, their instances and the outputs present.
#[derive(Debug)]
pub struct SpaceContainer {
    pub config_list: Vec<CosmicPanelConfig>,
    pub space_list: Vec<PanelInstance>,
    pub outputs: Vec<String>,
    /// whether the theme is dark
    pub is_dark: bool,
    pub light_bg: Rgba,
    pub dark_bg: Rgba,
}

/// Whether a panel on `background` takes a color meant for the dark
/// background (`dark`), the light one (`light`) or the theme (`theme`).
pub open spec fn follows(background: CosmicPanelBackground, dark: bool, light: bool, theme: bool) -> bool {
    match background {
        CosmicPanelBackground::ThemeDefault => theme,
        CosmicPanelBackground::Dark => dark,
        CosmicPanelBackground::Light => light,
        CosmicPanelBackground::Color(_, _, _) => false,
    }
}

/// The output of an instance, as text (`None`: the active output).
pub open spec fn out_key(x: PanelInstance) -> Option<Seq<char>> {
    match x.output {
        Some(o) => Some(o@),
        None => None,
    }
}

/// The output of a recreation, as text.
pub open spec fn rec_key(r: Recreation) -> Option<Seq<char>> {
    match r.output {
        Some(o) => Some(o@),
        None => None,
    }
}

pub open spec fn unique_names(cs: Seq<CosmicPanelConfig>) -> bool {
    forall|a: int, b: int| 0 <= a < b < cs.len() ==> cs[a].name@ != cs[b].name@
}

/// At most one instance per configuration name and output.
pub open spec fn unique_instances(ss: Seq<PanelInstance>) -> bool {
    forall|a: int, b: int|
        0 <= a < b < ss.len() ==> !(ss[a].config.name@ == ss[b].config.name@ && out_key(ss[a])
            == out_key(ss[b]))
}

/// Whether recreating `r` replaces the instance `x`: same name, and the same
/// output (an instance on the active output counts as on every output).
pub open spec fn hit(x: PanelInstance, r: Recreation) -> bool {
    &&& x.config.name@ == r.name@
    &&& match (r.output, x.output) {
        (Some(o), Some(xo)) => xo@ == o@,
        _ => true,
    }
}

/// Whether recreating configuration `name` with `list` removes `x`.
pub open spec fn dropped(x: PanelInstance, name: Seq<char>, list: Seq<Recreation>) -> bool {
    x.config.name@ == name || exists|k: int| 0 <= k < list.len() && hit(x, #[trigger] list[k])
}

/// The instances a recreation keeps, in their order.
pub open spec fn kept_instances(ss: Seq<PanelInstance>, name: Seq<char>, list: Seq<Recreation>) -> Seq<PanelInstance>
    decreases ss.len(),
{
    if ss.len() == 0 {
        Seq::empty()
    } else {
        let rest = kept_instances(ss.drop_last(), name, list);
        if dropped(ss.last(), name, list) {
            rest
        } else {
            rest.push(ss.last())
        }
    }
}

/// `x` is a new instance for `r`: of that name, on that output, running the
/// configuration of that name in `cfgs` with its output set to that one, in
/// the background color that configuration calls for.
pub open spec fn new_instance_of(
    x: PanelInstance,
    r: Recreation,
    cfgs: Seq<CosmicPanelConfig>,
    current: Rgba,
    dark: Rgba,
    light: Rgba,
) -> bool {
    &&& x.config.name@ == r.name@
    &&& x.bg_color == background_color(x.config, current, dark, light)
    &&& out_key(x) == rec_key(r)
    &&& output_view(x.config.output) == Some(rec_key(r))
    &&& exists|i: int|
        0 <= i < cfgs.len() && cfgs[i].name@ == r.name@ && same_but_output(x.config, #[trigger] cfgs[i])
}

/// After a recreation for configuration `name` with `list`: the instances
/// kept, in their order, then one new instance per entry of `list`.
pub open spec fn recreated_instances(
    old: Seq<PanelInstance>,
    new: Seq<PanelInstance>,
    cfgs: Seq<CosmicPanelConfig>,
    name: Seq<char>,
    list: Seq<Recreation>,
    current: Rgba,
    dark: Rgba,
    light: Rgba,
) -> bool {
    let kept = kept_instances(old, name, list);
    &&& new.len() == kept.len() + list.len()
    &&& forall|i: int| 0 <= i < kept.len() ==> #[trigger] new[i] == kept[i]
    &&& forall|k: int|
        0 <= k < list.len() ==> new_instance_of(
            #[trigger] new[kept.len() + k],
            list[k],
            cfgs,
            current,
            dark,
            light,
        )
}

proof fn lemma_kept(ss: Seq<PanelInstance>, name: Seq<char>, list: Seq<Recreation>)
    ensures
        forall|k: int|
            0 <= k < kept_instances(ss, name, list).len() ==> {
                let x = #[trigger] kept_instances(ss, name, list)[k];
                &&& !dropped(x, name, list)
                &&& exists|j: int| 0 <= j < ss.len() && ss[j] == x
            },
        unique_instances(ss) ==> unique_instances(kept_instances(ss, name, list)),
    decreases ss.len(),
{
    if ss.len() > 0 {
        let pre = ss.drop_last();
        lemma_kept(pre, name, list);
        let rest = kept_instances(pre, name, list);
        let kept = kept_instances(ss, name, list);
        assert forall|k: int| 0 <= k < kept.len() implies {
            let x = #[trigger] kept[k];
            &&& !dropped(x, name, list)
            &&& exists|j: int| 0 <= j < ss.len() && ss[j] == x
        } by {
            if k < rest.len() {
                let x = rest[k];
                assert(kept[k] == x);
                let j = choose|j: int| 0 <= j < pre.len() && pre[j] == x;
                assert(ss[j] == x);
            } else {
                assert(kept[k] == ss.last());
                assert(ss[ss.len() - 1] == ss.last());
            }
        }
        if unique_instances(ss) {
            assert(unique_instances(pre)) by {
                assert forall|a: int, b: int| 0 <= a < b < pre.len() implies !(pre[a].config.name@
                    == pre[b].config.name@ && out_key(pre[a]) == out_key(pre[b])) by {
                    assert(pre[a] == ss[a] && pre[b] == ss[b]);
                }
            }
            assert forall|a: int, b: int| 0 <= a < b < kept.len() implies !(kept[a].config.name@
                == kept[b].config.name@ && out_key(kept[a]) == out_key(kept[b])) by {
                if b < rest.len() {
                    assert(kept[a] == rest[a] && kept[b] == rest[b]);
                } else {
                    assert(kept[a] == rest[a]);
                    assert(kept[b] == ss.last());
                    let j = choose|j: int| 0 <= j < pre.len() && pre[j] == rest[a];
                    assert(ss[j] == rest[a]);
                    assert(ss[ss.len() - 1] == ss.last());
                }
            }
        }
    }
}

/// What `without_name` keeps was there before, bears another name, and
/// keeps names distinct.
proof fn lemma_without_name(cs: Seq<CosmicPanelConfig>, name: Seq<char>)
    ensures
        forall|k: int|
            0 <= k < without_name(cs, name).len() ==> {
                let x = #[trigger] without_name(cs, name)[k];
                &&& x.name@ != name
                &&& exists|j: int| 0 <= j < cs.len() && cs[j] == x
            },
        unique_names(cs) ==> unique_names(without_name(cs, name)),
    decreases cs.len(),
{
    if cs.len() > 0 {
        let pre = cs.drop_last();
        lemma_without_name(pre, name);
        let rest = without_name(pre, name);
        let w = without_name(cs, name);
        assert forall|k: int| 0 <= k < w.len() implies {
            let x = #[trigger] w[k];
            &&& x.name@ != name
            &&& exists|j: int| 0 <= j < cs.len() && cs[j] == x
        } by {
            if k < rest.len() {
                let x = rest[k];
                assert(w[k] == x);
                let j = choose|j: int| 0 <= j < pre.len() && pre[j] == x;
                assert(cs[j] == x);
            } else {
                assert(w[k] == cs.last());
                assert(cs[cs.len() - 1] == cs.last());
            }
        }
        if unique_names(cs) {
            assert(unique_names(pre)) by {
                assert forall|a: int, b: int| 0 <= a < b < pre.len() implies pre[a].name@ != pre[b].name@ by {
                    assert(pre[a] == cs[a] && pre[b] == cs[b]);
                }
            }
            assert forall|a: int, b: int| 0 <= a < b < w.len() implies w[a].name@ != w[b].name@ by {
                if b < rest.len() {
                    assert(w[a] == rest[a] && w[b] == rest[b]);
                } else {
                    assert(w[a] == rest[a]);
                    assert(w[b] == cs.last());
                    let j = choose|j: int| 0 <= j < pre.len() && pre[j] == rest[a];
                    assert(cs[j] == rest[a]);
                    assert(cs[cs.len() - 1] == cs.last());
                }
            }
        }
    }
}

proof fn lemma_names_after_update(cs: Seq<CosmicPanelConfig>, entry: CosmicPanelConfig)
    requires
        unique_names(cs),
    ensures
        unique_names(without_name(cs, entry.name@).push(entry)),
{
    lemma_without_name(cs, entry.name@);
    let w = without_name(cs, entry.name@);
    let p = w.push(entry);
    assert forall|a: int, b: int| 0 <= a < b < p.len() implies p[a].name@ != p[b].name@ by {
        assert(p[a] == w[a]);
        if b < w.len() {
            assert(p[b] == w[b]);
        }
    }
}

fn hit_exec(x: &PanelInstance, r: &Recreation) -> (b: bool)
    ensures
        b == hit(*x, *r),
{
    if !x.config.name.eq(&r.name) {
        return false;
    }
    match (&r.output, &x.output) {
        (Some(o), Some(xo)) => xo.eq(o),
        _ => true,
    }
}

fn dropped_exec(x: &PanelInstance, name: &String, list: &Vec<Recreation>) -> (b: bool)
    ensures
        b == dropped(*x, name@, list@),
{
    if x.config.name.eq(name) {
        return true;
    }
    let mut k: usize = 0;
    while k < list.len()
        invariant
            0 <= k <= list@.len(),
            forall|j: int| 0 <= j < k ==> !hit(*x, #[trigger] list@[j]),
        decreases list@.len() - k,
    {
        if hit_exec(x, &list[k]) {
            return true;
        }
        k += 1;
    }
    false
}

/// Each output `entry` targets gets a new instance of `entry` in `list`.
pub open spec fn entry_on_targets(outputs: Seq<String>, entry: CosmicPanelConfig, list: Seq<Recreation>) -> bool {
    forall|oi: int|
        0 <= oi < outputs.len() && targets_output(entry, #[trigger] outputs[oi]@) ==> exists|k: int|
            0 <= k < list.len() && list[k].name@ == entry.name@ && rec_out_is(list[k], outputs[oi]@)
}

/// Whether an instance already runs `entry`; for an entry shown on all
/// outputs the output of the instance is not compared.
pub open spec fn instance_matches(s: PanelInstance, entry: CosmicPanelConfig) -> bool {
    if entry.output is All {
        same_but_output(s.config, entry)
    } else {
        configs_equal(s.config, entry)
    }
}

/// Number of instances running `entry` already.
pub open spec fn count_matching(spaces: Seq<PanelInstance>, entry: CosmicPanelConfig) -> int
    decreases spaces.len(),
{
    if spaces.len() == 0 {
        0
    } else {
        count_matching(spaces.drop_last(), entry) + if instance_matches(spaces.last(), entry) {
            1int
        } else {
            0int
        }
    }
}

/// Number of instances of the configuration named `name`.
pub open spec fn count_named(spaces: Seq<PanelInstance>, name: Seq<char>) -> int
    decreases spaces.len(),
{
    if spaces.len() == 0 {
        0
    } else {
        count_named(spaces.drop_last(), name) + if spaces.last().config.name@ == name {
            1int
        } else {
            0int
        }
    }
}

/// Index of the first configuration of that name, if any.
pub open spec fn first_named(configs: Seq<CosmicPanelConfig>, name: Seq<char>) -> Option<int>
    decreases configs.len(),
{
    if configs.len() == 0 {
        None
    } else if configs[0].name@ == name {
        Some(0)
    } else {
        match first_named(configs.drop_first(), name) {
            Some(i) => Some(i + 1),
            None => None,
        }
    }
}

fn count_matching_exec(spaces: &Vec<PanelInstance>, entry: &CosmicPanelConfig) -> (r: usize)
    ensures
        r == count_matching(spaces@, *entry),
{
    let mut n: usize = 0;
    let mut i: usize = 0;
    while i < spaces.len()
        invariant
            0 <= i <= spaces@.len(),
            n == count_matching(spaces@.take(i as int), *entry),
            n <= i,
        decreases spaces@.len() - i,
    {
        proof {
            assert(spaces@.take(i + 1).drop_last() =~= spaces@.take(i as int));
        }
        let s = &spaces[i];
        let m = if matches!(entry.output, CosmicPanelOuput::All) {
            same_but_output_exec(&s.config, entry)
        } else {
            same_but_output_exec(&s.config, entry) && output_eq(&s.config.output, &entry.output)
        };
        if m {
            n += 1;
        }
        i += 1;
    }
    proof {
        assert(spaces@.take(i as int) =~= spaces@);
    }
    n
}

fn count_named_exec(spaces: &Vec<PanelInstance>, name: &String) -> (r: usize)
    ensures
        r == count_named(spaces@, name@),
{
    let mut n: usize = 0;
    let mut i: usize = 0;
    while i < spaces.len()
        invariant
            0 <= i <= spaces@.len(),
            n == count_named(spaces@.take(i as int), name@),
            n <= i,
        decreases spaces@.len() - i,
    {
        proof {
            assert(spaces@.take(i + 1).drop_last() =~= spaces@.take(i as int));
        }
        if spaces[i].config.name.eq(name) {
            n += 1;
        }
        i += 1;
    }
    proof {
        assert(spaces@.take(i as int) =~= spaces@);
    }
    n
}

proof fn lemma_first_named(configs: Seq<CosmicPanelConfig>, name: Seq<char>, i: int)
    requires
        0 <= i <= configs.len(),
        forall|j: int| 0 <= j < i ==> configs[j].name@ != name,
    ensures
        i < configs.len() && configs[i].name@ == name ==> first_named(configs, name) == Some(i),
        i == configs.len() ==> first_named(configs, name) is None,
    decreases i,
{
    if i > 0 {
        lemma_first_named(configs.drop_first(), name, i - 1);
    }
}

fn first_named_exec(configs: &Vec<CosmicPanelConfig>, name: &String) -> (r: Option<usize>)
    ensures
        match r {
            Some(i) => first_named(configs@, name@) == Some(i as int) && i < configs@.len(),
            None => first_named(configs@, name@) is None,
        },
{
    let mut i: usize = 0;
    while i < configs.len()
        invariant
            0 <= i <= configs@.len(),
            forall|j: int| 0 <= j < i ==> configs@[j].name@ != name@,
        decreases configs@.len() - i,
    {
        if configs[i].name.eq(name) {
            proof {
                lemma_first_named(configs@, name@, i as int);
            }
            return Some(i);
        }
        i += 1;
    }
    proof {
        lemma_first_named(configs@, name@, i as int);
    }
    None
}

/// A change to an existing configuration of the same name that a running
/// instance cannot take in place.
pub open spec fn forces_recreation(c: CosmicPanelConfig, entry: CosmicPanelConfig) -> bool {
    &&& c.name@ == entry.name@
    &&& {
        ||| c.size != entry.size
        ||| (!(entry.output is All) && output_view(c.output) != output_view(entry.output))
        ||| c.anchor.is_horizontal_spec() != entry.anchor.is_horizontal_spec()
        ||| c.background != entry.background
        ||| crate::config::opt_names_view(c.plugins_center) != crate::config::opt_names_view(
            entry.plugins_center,
        )
        ||| crate::config::wings_view(c.plugins_wings) != crate::config::wings_view(entry.plugins_wings)
    }
}

fn forces_recreation_exec(c: &CosmicPanelConfig, entry: &CosmicPanelConfig) -> (r: bool)
    ensures
        r == forces_recreation(*c, *entry),
{
    if !c.name.eq(&entry.name) {
        return false;
    }
    let out_differs = !matches!(entry.output, CosmicPanelOuput::All) && !output_eq(&c.output, &entry.output);
    let center_differs = !crate::config::opt_names_eq(&c.plugins_center, &entry.plugins_center);
    let wings_differ = !crate::config::wings_eq(&c.plugins_wings, &entry.plugins_wings);
    c.size != entry.size || out_differs || c.is_horizontal() != entry.is_horizontal()
        || c.background != entry.background || center_differs || wings_differ
}

impl SpaceContainer {
    /// Instances `entry` should have: one per output where it targets all of
    /// them, else as many as its name has now.
    pub open spec fn expected_instances(&self, entry: CosmicPanelConfig) -> int {
        if entry.output is All {
            self.outputs@.len() as int
        } else {
            count_named(self.space_list@, entry.name@)
        }
    }

    /// Every instance `entry` should have already runs it.
    pub open spec fn is_unchanged(&self, entry: CosmicPanelConfig) -> bool {
        let e = self.expected_instances(entry);
        e >= 1 && count_matching(self.space_list@, entry) >= e
    }

    /// The instances of `entry`'s name are not the ones its output calls for.
    pub open spec fn output_count_mismatch(&self, entry: CosmicPanelConfig) -> bool {
        let n = count_named(self.space_list@, entry.name@);
        match entry.output {
            CosmicPanelOuput::All => n != self.outputs@.len(),
            CosmicPanelOuput::Name(_) => n != 1,
            CosmicPanelOuput::Active => true,
        }
    }

    pub open spec fn old_config(&self, entry: CosmicPanelConfig) -> Option<CosmicPanelConfig> {
        match first_named(self.config_list@, entry.name@) {
            Some(i) => Some(self.config_list@[i]),
            None => None,
        }
    }

    /// Priority the configuration of that name had, 0 for a new one.
    pub open spec fn old_priority(&self, entry: CosmicPanelConfig) -> u32 {
        match self.old_config(entry) {
            Some(c) => c.priority(),
            None => 0,
        }
    }

    pub open spec fn old_anchor(&self, entry: CosmicPanelConfig) -> PanelAnchor {
        match self.old_config(entry) {
            Some(c) => c.anchor,
            None => entry.anchor,
        }
    }

    /// The panel moves to the opposite edge.
    pub open spec fn anchor_flipped(&self, entry: CosmicPanelConfig) -> bool {
        self.old_anchor(entry) == entry.anchor.opposite_spec()
    }

    /// The update cannot be made in place.
    pub open spec fn must_recreate(&self, entry: CosmicPanelConfig) -> bool {
        ||| self.output_count_mismatch(entry)
        ||| self.anchor_flipped(entry)
        ||| exists|i: int|
            0 <= i < self.config_list@.len() && #[trigger] forces_recreation(
                self.config_list@[i],
                entry,
            )
    }

    fn must_recreate_exec(&self, entry: &CosmicPanelConfig, old: Option<usize>) -> (r: bool)
        requires
            match old {
                Some(i) => first_named(self.config_list@, entry.name@) == Some(i as int) && i
                    < self.config_list@.len(),
                None => first_named(self.config_list@, entry.name@) is None,
            },
        ensures
            r == self.must_recreate(*entry),
    {
        let n = count_named_exec(&self.space_list, &entry.name);
        let mismatch = match &entry.output {
            CosmicPanelOuput::All => n != self.outputs.len(),
            CosmicPanelOuput::Name(_) => n != 1,
            CosmicPanelOuput::Active => true,
        };
        let old_anchor = match old {
            Some(i) => self.config_list[i].anchor,
            None => entry.anchor,
        };
        let flipped = old_anchor == entry.anchor.opposite();
        if mismatch || flipped {
            return true;
        }
        let mut i: usize = 0;
        while i < self.config_list.len()
            invariant
                0 <= i <= self.config_list@.len(),
                forall|j: int| 0 <= j < i ==> !forces_recreation(#[trigger] self.config_list@[j], *entry),
            decreases self.config_list@.len() - i,
        {
            if forces_recreation_exec(&self.config_list[i], entry) {
                return true;
            }
            i += 1;
        }
        false
    }
}

/// The configurations, without those of that name.
pub open spec fn without_name(cs: Seq<CosmicPanelConfig>, name: Seq<char>) -> Seq<CosmicPanelConfig>
    decreases cs.len(),
{
    if cs.len() == 0 {
        Seq::empty()
    } else {
        let rest = without_name(cs.drop_last(), name);
        if cs.last().name@ == name {
            rest
        } else {
            rest.push(cs.last())
        }
    }
}

/// Whether an instance is one of configuration `name` on output `output`
/// (an instance on the active output counts as on every output).
pub open spec fn instance_on(s: PanelInstance, name: Seq<char>, output: Option<Seq<char>>) -> bool {
    &&& s.config.name@ == name
    &&& match (output, s.output) {
        (Some(o), Some(so)) => so@ == o,
        _ => true,
    }
}

/// The instances, without those of `name` on `output`.
pub open spec fn without_instances(ss: Seq<PanelInstance>, name: Seq<char>, output: Option<Seq<char>>) -> Seq<
    PanelInstance,
>
    decreases ss.len(),
{
    if ss.len() == 0 {
        Seq::empty()
    } else {
        let rest = without_instances(ss.drop_last(), name, output);
        if instance_on(ss.last(), name, output) {
            rest
        } else {
            rest.push(ss.last())
        }
    }
}

fn remove_configs_named(list: &mut Vec<CosmicPanelConfig>, name: &String)
    ensures
        final(list)@ == without_name(old(list)@, name@),
{
    let ghost orig = list@;
    let n = list.len();
    let mut i: usize = 0;
    let mut j: usize = 0;
    while j < n
        invariant
            n == orig.len(),
            0 <= j <= orig.len(),
            i <= j,
            orig == old(list)@,
            i == without_name(orig.take(j as int), name@).len(),
            list@ == without_name(orig.take(j as int), name@) + orig.skip(j as int),
        decreases orig.len() - j,
    {
        proof {
            assert(orig.take(j + 1).drop_last() =~= orig.take(j as int));
            assert(list@[i as int] == orig[j as int]);
        }
        if list[i].name.eq(name) {
            list.remove(i);
            proof {
                assert(list@ =~= without_name(orig.take(j + 1), name@) + orig.skip(j + 1));
            }
        } else {
            assert(i < list@.len());
            i += 1;
            proof {
                assert(list@ =~= without_name(orig.take(j + 1), name@) + orig.skip(j + 1));
            }
        }
        j += 1;
    }
    proof {
        assert(orig.take(j as int) =~= orig);
        assert(list@ =~= without_name(orig, name@));
    }
}

fn same_opt_string(a: &Option<String>, b: Option<&String>) -> (r: bool)
    ensures
        r == match (b, *a) {
            (Some(o), Some(so)) => so@ == o@,
            _ => true,
        },
{
    match (b, a) {
        (Some(o), Some(so)) => so.eq(o),
        _ => true,
    }
}

fn remove_instances(list: &mut Vec<PanelInstance>, name: &String, output: Option<&String>)
    ensures
        final(list)@ == without_instances(
            old(list)@,
            name@,
            match output {
                Some(o) => Some(o@),
                None => None,
            },
        ),
{
    let ghost out = match output {
        Some(o) => Some(o@),
        None => None::<Seq<char>>,
    };
    let ghost orig = list@;
    let n = list.len();
    let mut i: usize = 0;
    let mut j: usize = 0;
    while j < n
        invariant
            n == orig.len(),
            0 <= j <= orig.len(),
            i <= j,
            orig == old(list)@,
            out == match output {
                Some(o) => Some(o@),
                None => None::<Seq<char>>,
            },
            i == without_instances(orig.take(j as int), name@, out).len(),
            list@ == without_instances(orig.take(j as int), name@, out) + orig.skip(j as int),
        decreases orig.len() - j,
    {
        proof {
            assert(orig.take(j + 1).drop_last() =~= orig.take(j as int));
            assert(list@[i as int] == orig[j as int]);
        }
        let hit = list[i].config.name.eq(name) && same_opt_string(&list[i].output, output);
        if hit {
            list.remove(i);
            proof {
                assert(list@ =~= without_instances(orig.take(j + 1), name@, out) + orig.skip(j + 1));
            }
        } else {
            assert(i < list@.len());
            i += 1;
            proof {
                assert(list@ =~= without_instances(orig.take(j + 1), name@, out) + orig.skip(j + 1));
            }
        }
        j += 1;
    }
    proof {
        assert(orig.take(j as int) =~= orig);
        assert(list@ =~= without_instances(orig, name@, out));
    }
}

/// Whether a configuration is shown on the output of that name.
pub open spec fn config_for_output(c: CosmicPanelConfig, o: Seq<char>) -> bool {
    match c.output {
        CosmicPanelOuput::All => true,
        CosmicPanelOuput::Name(n) => n@ == o,
        CosmicPanelOuput::Active => false,
    }
}

fn config_for_output_exec(c: &CosmicPanelConfig, o: &String) -> (r: bool)
    ensures
        r == config_for_output(*c, o@),
{
    match &c.output {
        CosmicPanelOuput::All => true,
        CosmicPanelOuput::Name(n) => n.eq(o),
        CosmicPanelOuput::Active => false,
    }
}

pub open spec fn strictly_between(p: u32, a: u32, b: u32) -> bool {
    (a < p && p < b) || (b < p && p < a)
}

/// Whether a panel is recreated along with the changed configuration `name`,
/// whose priority went from `old_p` to `new_p`: it is that configuration, or
/// its priority lies strictly between the two.
#[verifier::opaque]
pub open spec fn recreate_rule(
    c: CosmicPanelConfig,
    name: Seq<char>,
    old_p: u32,
    new_p: u32,
) -> bool {
    c.name@ == name || strictly_between(c.priority(), old_p, new_p)
}

pub open spec fn rec_out_is(r: Recreation, o: Seq<char>) -> bool {
    match r.output {
        Some(x) => x@ == o,
        None => false,
    }
}

/// The panels of one output to recreate, by descending priority, with the
/// index of each one's configuration.
fn recreation_group(
    configs: &Vec<CosmicPanelConfig>,
    output: &String,
    name: &String,
    old_p: u32,
    new_p: u32,
) -> (r: (Vec<Recreation>, Vec<usize>))
    ensures
        r.0@.len() == r.1@.len(),
        forall|k: int|
            0 <= k < r.0@.len() ==> {
                let i = #[trigger] r.1@[k];
                &&& 0 <= i < configs@.len()
                &&& config_for_output(configs@[i as int], output@)
                &&& recreate_rule(configs@[i as int], name@, old_p, new_p)
                &&& r.0@[k].name@ == configs@[i as int].name@
                &&& r.0@[k].priority == configs@[i as int].priority()
                &&& rec_out_is(r.0@[k], output@)
            },
        forall|i: int|
            0 <= i < configs@.len() && config_for_output(configs@[i], output@) && recreate_rule(
                #[trigger] configs@[i],
                name@,
                old_p,
                new_p,
            ) ==> exists|k: int| 0 <= k < r.1@.len() && r.1@[k] == i,
        forall|a: int, b: int|
            0 <= a < b < r.0@.len() ==> r.0@[a].priority >= r.0@[b].priority,
        forall|a: int, b: int| 0 <= a < b < r.1@.len() ==> r.1@[a] != r.1@[b],
{
    let mut group: Vec<Recreation> = Vec::new();
    let mut idx: Vec<usize> = Vec::new();
    let mut i: usize = 0;
    while i < configs.len()
        invariant
            0 <= i <= configs@.len(),
            group@.len() == idx@.len(),
            forall|k: int|
                0 <= k < group@.len() ==> {
                    let j = #[trigger] idx@[k];
                    &&& 0 <= j < i
                    &&& config_for_output(configs@[j as int], output@)
                    &&& recreate_rule(configs@[j as int], name@, old_p, new_p)
                    &&& group@[k].name@ == configs@[j as int].name@
                    &&& group@[k].priority == configs@[j as int].priority()
                    &&& rec_out_is(group@[k], output@)
                },
            forall|j: int|
                0 <= j < i && config_for_output(configs@[j], output@) && recreate_rule(
                    #[trigger] configs@[j],
                    name@,
                    old_p,
                    new_p,
                ) ==> exists|k: int| 0 <= k < idx@.len() && idx@[k] == j,
            forall|a: int, b: int|
                0 <= a < b < group@.len() ==> group@[a].priority >= group@[b].priority,
            forall|a: int, b: int| 0 <= a < b < idx@.len() ==> idx@[a] != idx@[b],
        decreases configs@.len() - i,
    {
        proof {
            reveal(recreate_rule);
        }
        let c = &configs[i];
        let p = c.get_priority();
        let on_output = config_for_output_exec(c, output);
        let between = (old_p < p && p < new_p) || (new_p < p && p < old_p);
        let selected = on_output && (c.name.eq(name) || between);
        if selected {
            let mut pos: usize = 0;
            while pos < group.len() && group[pos].priority >= p
                invariant
                    0 <= pos <= group@.len(),
                    forall|k: int| 0 <= k < pos ==> group@[k].priority >= p,
                decreases group@.len() - pos,
            {
                pos += 1;
            }
            let ghost g0 = group@;
            let ghost i0 = idx@;
            group.insert(pos, Recreation { name: c.name.clone(), output: Some(output.clone()), priority: p });
            idx.insert(pos, i);
            proof {
                assert forall|j: int|
                    0 <= j < i + 1 && config_for_output(configs@[j], output@) && recreate_rule(
                        #[trigger] configs@[j],
                        name@,
                        old_p,
                        new_p,
                    ) implies exists|k: int| 0 <= k < idx@.len() && idx@[k] == j by {
                    if j == i {
                        assert(idx@[pos as int] == j);
                    } else {
                        let k0 = choose|k: int| 0 <= k < i0.len() && i0[k] == j;
                        if k0 < pos {
                            assert(idx@[k0] == j);
                        } else {
                            assert(idx@[k0 + 1] == j);
                        }
                    }
                }
                assert forall|a: int, b: int| 0 <= a < b < group@.len() implies group@[a].priority
                    >= group@[b].priority by {
                    if b < pos {
                    } else if b == pos {
                    } else if a < pos {
                        assert(group@[b] == g0[b - 1]);
                    } else if a == pos {
                        assert(group@[b] == g0[b - 1]);
                        assert(g0[pos as int].priority < p);
                        if b - 1 > pos {
                            assert(g0[pos as int].priority >= g0[b - 1].priority);
                        }
                    } else {
                        assert(group@[b] == g0[b - 1]);
                        assert(group@[a] == g0[a - 1]);
                    }
                }
                assert forall|a: int, b: int| 0 <= a < b < idx@.len() implies idx@[a] != idx@[b] by {
                    if a < pos && b < pos {
                        assert(idx@[a] == i0[a] && idx@[b] == i0[b]);
                    } else if a < pos && b == pos {
                        assert(idx@[a] == i0[a]);
                        assert(i0[a] < i);
                    } else if a < pos {
                        assert(idx@[a] == i0[a] && idx@[b] == i0[b - 1]);
                    } else if a == pos {
                        assert(idx@[b] == i0[b - 1]);
                        assert(i0[b - 1] < i);
                    } else {
                        assert(idx@[a] == i0[a - 1] && idx@[b] == i0[b - 1]);
                    }
                }
                assert forall|k: int| 0 <= k < group@.len() implies {
                    let j = #[trigger] idx@[k];
                    &&& 0 <= j < i + 1
                    &&& config_for_output(configs@[j as int], output@)
                    &&& recreate_rule(configs@[j as int], name@, old_p, new_p)
                    &&& group@[k].name@ == configs@[j as int].name@
                    &&& group@[k].priority == configs@[j as int].priority()
                    &&& rec_out_is(group@[k], output@)
                } by {
                    if k < pos {
                        assert(idx@[k] == i0[k]);
                        assert(group@[k] == g0[k]);
                    } else if k > pos {
                        assert(idx@[k] == i0[k - 1]);
                        assert(group@[k] == g0[k - 1]);
                    }
                }
            }
        }
        i += 1;
    }
    (group, idx)
}

/// Whether an output target (see `output_view`) covers the output of that name.
pub open spec fn view_targets(target: Option<Option<Seq<char>>>, o: Seq<char>) -> bool {
    match target {
        None => true,
        Some(Some(n)) => n == o,
        Some(None) => false,
    }
}

/// Whether `entry` is to be shown on the output of that name.
pub open spec fn targets_output(entry: CosmicPanelConfig, o: Seq<char>) -> bool {
    view_targets(output_view(entry.output), o)
}

fn targets_output_exec(entry: &CosmicPanelConfig, o: &String) -> (r: bool)
    ensures
        r == targets_output(*entry, o@),
{
    match &entry.output {
        CosmicPanelOuput::All => true,
        CosmicPanelOuput::Name(n) => n.eq(o),
        CosmicPanelOuput::Active => false,
    }
}

fn clone_opt_string(o: &Option<String>) -> (r: Option<String>)
    ensures
        r == *o,
{
    match o {
        Some(s) => Some(s.clone()),
        None => None,
    }
}

impl SpaceContainer {
    /// A container for the given configurations, before any output is known.
    pub fn new(config_list: Vec<CosmicPanelConfig>, is_dark: bool, light_bg: Rgba, dark_bg: Rgba) -> (r: SpaceContainer)
        ensures
            r.config_list == config_list,
            r.space_list@.len() == 0,
            r.outputs@.len() == 0,
            r.is_dark == is_dark,
            r.light_bg == light_bg,
            r.dark_bg == dark_bg,
            unique_names(config_list@) ==> r.wf(),
    {
        SpaceContainer { config_list, space_list: Vec::new(), outputs: Vec::new(), is_dark, light_bg, dark_bg }
    }

    pub open spec fn current_bg(&self) -> Rgba {
        if self.is_dark {
            self.dark_bg
        } else {
            self.light_bg
        }
    }

    /// The theme color in use.
    pub fn cur_bg_color(&self) -> (r: Rgba)
        ensures
            r == self.current_bg(),
    {
        if self.is_dark {
            self.dark_bg
        } else {
            self.light_bg
        }
    }

    /// Sets `color` on every instance for which `follows` holds.
    fn recolor(&mut self, color: Rgba, dark: bool, light: bool, theme: bool)
        ensures
            final(self).config_list == old(self).config_list,
            final(self).outputs == old(self).outputs,
            final(self).is_dark == old(self).is_dark,
            final(self).light_bg == old(self).light_bg,
            final(self).dark_bg == old(self).dark_bg,
            final(self).space_list@.len() == old(self).space_list@.len(),
            forall|i: int|
                0 <= i < old(self).space_list@.len() ==> {
                    let a = old(self).space_list@[i];
                    let b = #[trigger] final(self).space_list@[i];
                    &&& b.config == a.config
                    &&& b.output == a.output
                    &&& b.bg_color == if follows(a.config.background, dark, light, theme) {
                        themed_color(a.config, color)
                    } else {
                        a.bg_color
                    }
                },
    {
        let n = self.space_list.len();
        let mut i: usize = 0;
        while i < n
            invariant
                n == old(self).space_list@.len(),
                0 <= i <= n,
                self.config_list == old(self).config_list,
                self.outputs == old(self).outputs,
                self.is_dark == old(self).is_dark,
                self.light_bg == old(self).light_bg,
                self.dark_bg == old(self).dark_bg,
                self.space_list@.len() == n,
                forall|j: int| i <= j < n ==> #[trigger] self.space_list@[j] == old(self).space_list@[j],
                forall|j: int|
                    0 <= j < i ==> {
                        let a = old(self).space_list@[j];
                        let b = #[trigger] self.space_list@[j];
                        &&& b.config == a.config
                        &&& b.output == a.output
                        &&& b.bg_color == if follows(a.config.background, dark, light, theme) {
                            themed_color(a.config, color)
                        } else {
                            a.bg_color
                        }
                    },
            decreases n - i,
        {
            let f = match self.space_list[i].config.background {
                CosmicPanelBackground::ThemeDefault => theme,
                CosmicPanelBackground::Dark => dark,
                CosmicPanelBackground::Light => light,
                CosmicPanelBackground::Color(_, _, _) => false,
            };
            if f {
                let mut c = color;
                if let CosmicPanelBackground::ThemeDefault = self.space_list[i].config.background {
                    c.a = self.space_list[i].config.opacity;
                }
                let old_inst = self.space_list.remove(i);
                let inst = PanelInstance { config: old_inst.config, output: old_inst.output, bg_color: c };
                self.space_list.insert(i, inst);
            }
            i += 1;
        }
    }

    /// Sets the dark theme color; panels on the dark background, and those
    /// following the theme while it is dark, take it.
    pub fn set_dark(&mut self, color: Rgba)
        ensures
            final(self).dark_bg == color,
            final(self).space_list@.len() == old(self).space_list@.len(),
            forall|i: int|
                0 <= i < old(self).space_list@.len() ==> {
                    let a = old(self).space_list@[i];
                    let b = #[trigger] final(self).space_list@[i];
                    &&& b.config == a.config
                    &&& b.bg_color == if follows(a.config.background, true, false, old(self).is_dark) {
                        themed_color(a.config, color)
                    } else {
                        a.bg_color
                    }
                },
    {
        self.dark_bg = color;
        let theme = self.is_dark;
        self.recolor(color, true, false, theme);
    }

    /// Sets the light theme color; panels on the light background, and those
    /// following the theme while it is light, take it.
    pub fn set_light(&mut self, color: Rgba)
        ensures
            final(self).light_bg == color,
            final(self).space_list@.len() == old(self).space_list@.len(),
            forall|i: int|
                0 <= i < old(self).space_list@.len() ==> {
                    let a = old(self).space_list@[i];
                    let b = #[trigger] final(self).space_list@[i];
                    &&& b.config == a.config
                    &&& b.bg_color == if follows(a.config.background, false, true, !old(self).is_dark) {
                        themed_color(a.config, color)
                    } else {
                        a.bg_color
                    }
                },
    {
        self.light_bg = color;
        let theme = !self.is_dark;
        self.recolor(color, false, true, theme);
    }

    /// Switches between the light and dark theme; where that changes the
    /// theme, panels following it take the new theme color.
    pub fn set_theme_mode(&mut self, is_dark: bool)
        ensures
            final(self).is_dark == is_dark,
            final(self).space_list@.len() == old(self).space_list@.len(),
            forall|i: int|
                0 <= i < old(self).space_list@.len() ==> {
                    let a = old(self).space_list@[i];
                    let b = #[trigger] final(self).space_list@[i];
                    &&& b.config == a.config
                    &&& b.bg_color == if old(self).is_dark != is_dark && a.config.background is ThemeDefault {
                        themed_color(a.config, final(self).current_bg())
                    } else {
                        a.bg_color
                    }
                },
    {
        let changed = self.is_dark != is_dark;
        self.is_dark = is_dark;
        if changed {
            let cur = self.cur_bg_color();
            self.recolor(cur, false, false, true);
        }
    }

    /// Forgets the configuration `name` and destroys its instances.
    pub fn remove_space(&mut self, name: String)
        ensures
            final(self).space_list@ == without_instances(old(self).space_list@, name@, None),
            final(self).config_list@ == without_name(old(self).config_list@, name@),
            final(self).outputs == old(self).outputs,
    {
        remove_instances(&mut self.space_list, &name, None);
        remove_configs_named(&mut self.config_list, &name);
    }

    /// Output names are distinct.
    pub open spec fn outputs_distinct(&self) -> bool {
        forall|i: int, j: int|
            0 <= i < j < self.outputs@.len() ==> self.outputs@[i]@ != self.outputs@[j]@
    }

    /// Output names and configuration names are distinct, and at most one
    /// instance runs per configuration name and output.
    pub open spec fn wf(&self) -> bool {
        &&& self.outputs_distinct()
        &&& unique_names(self.config_list@)
        &&& unique_instances(self.space_list@)
    }

    /// Whether `list`, made against the configurations `cfgs`, is the
    /// recreation order for `entry`: for each targeted output, every panel
    /// that `recreate_rule` selects, and no other, by descending priority.
    pub open spec fn is_recreation_order(
        &self,
        entry: CosmicPanelConfig,
        cfgs: Seq<CosmicPanelConfig>,
        list: Seq<Recreation>,
    ) -> bool {
        recreation_order(
            self.outputs@,
            cfgs,
            entry.name@,
            output_view(entry.output),
            self.old_priority(entry),
            entry.priority(),
            list,
        )
    }

    /// Applies a new or changed configuration. Does nothing where every
    /// instance it calls for already runs it; updates the instances in place
    /// where that suffices; else destroys them and lists the panels to create
    /// anew, in order, the neighbours whose priority the change passes over
    /// included.
    pub fn update_space(&mut self, entry: CosmicPanelConfig) -> (r: UpdateOutcome)
        requires
            old(self).wf(),
        ensures
            old(self).is_unchanged(entry) ==> r is NoOp && *final(self) == *old(self),
            !old(self).is_unchanged(entry) ==> final(self).config_list@ == without_name(
                old(self).config_list@,
                entry.name@,
            ).push(entry) && final(self).outputs == old(self).outputs,
            !old(self).is_unchanged(entry) && !old(self).must_recreate(entry) ==> {
                &&& r is Updated
                &&& final(self).space_list@.len() == old(self).space_list@.len()
                &&& forall|i: int|
                    0 <= i < old(self).space_list@.len() ==> {
                        let a = old(self).space_list@[i];
                        let b = #[trigger] final(self).space_list@[i];
                        &&& b.output == a.output
                        &&& a.config.name@ == entry.name@ ==> same_but_output(b.config, entry)
                            && output_view(b.config.output) == output_view(a.config.output)
                            && b.bg_color == background_color(
                            entry,
                            old(self).current_bg(),
                            old(self).dark_bg,
                            old(self).light_bg,
                        )
                        &&& a.config.name@ != entry.name@ ==> b.config == a.config && b.bg_color
                            == a.bg_color
                    }
            },
            !old(self).is_unchanged(entry) ==> final(self).wf(),
            !old(self).is_unchanged(entry) && old(self).must_recreate(entry) && entry.output is Active
                ==> (r matches UpdateOutcome::Recreated(list) && list@.len() == 1 && list@[0].name@
                == entry.name@ && list@[0].output is None && list@[0].priority == entry.priority()
                && ({
                let kept = kept_instances(old(self).space_list@, entry.name@, Seq::empty());
                let x = final(self).space_list@[kept.len() as int];
                &&& final(self).space_list@.len() == kept.len() + 1
                &&& forall|i: int| 0 <= i < kept.len() ==> #[trigger] final(self).space_list@[i] == kept[i]
                &&& x.config.name@ == entry.name@
                &&& x.output is None
                &&& same_but_output(x.config, entry)
                &&& output_view(x.config.output) == output_view(entry.output)
                &&& x.bg_color == background_color(
                    entry,
                    old(self).current_bg(),
                    old(self).dark_bg,
                    old(self).light_bg,
                )
            })),
            !old(self).is_unchanged(entry) && old(self).must_recreate(entry) && !(entry.output is Active)
                ==> (r matches UpdateOutcome::Recreated(list) && old(self).is_recreation_order(
                entry,
                final(self).config_list@,
                list@,
            ) && recreated_instances(
                old(self).space_list@,
                final(self).space_list@,
                final(self).config_list@,
                entry.name@,
                list@,
                old(self).current_bg(),
                old(self).dark_bg,
                old(self).light_bg,
            ) && entry_on_targets(old(self).outputs@, entry, list@)),
    {
        let expected = if matches!(entry.output, CosmicPanelOuput::All) {
            self.outputs.len()
        } else {
            count_named_exec(&self.space_list, &entry.name)
        };
        let matching = count_matching_exec(&self.space_list, &entry);
        if expected >= 1 && matching >= expected {
            return UpdateOutcome::NoOp;
        }
        let old_idx = first_named_exec(&self.config_list, &entry.name);
        let must_recreate = self.must_recreate_exec(&entry, old_idx);
        let new_p = entry.get_priority();
        let old_p = match old_idx {
            Some(i) => self.config_list[i].get_priority(),
            None => 0,
        };
        let ghost old_self = *old(self);
        let cur = self.cur_bg_color();
        let bg = background_color_of(&entry, cur, self.dark_bg, self.light_bg);
        remove_configs_named(&mut self.config_list, &entry.name);
        let entry_name = entry.name.clone();
        let entry_copy = entry.duplicate();
        let is_active = matches!(entry.output, CosmicPanelOuput::Active);
        self.config_list.push(entry);
        proof {
            lemma_names_after_update(old_self.config_list@, entry);
        }
        if !must_recreate {
            self.update_in_place(&entry_copy, bg);
            proof {
                assert forall|a: int, b: int| 0 <= a < b < self.space_list@.len() implies !(
                self.space_list@[a].config.name@ == self.space_list@[b].config.name@ && out_key(
                    self.space_list@[a],
                ) == out_key(self.space_list@[b])) by {
                    let oa = old_self.space_list@[a];
                    let ob = old_self.space_list@[b];
                    assert(self.space_list@[a].config.name@ == oa.config.name@);
                    assert(self.space_list@[b].config.name@ == ob.config.name@);
                }
            }
            return UpdateOutcome::Updated;
        }
        if is_active {
            let empty_l: Vec<Recreation> = Vec::new();
            let empty_i: Vec<usize> = Vec::new();
            self.replace_instances(&entry_name, &empty_l, &empty_i);
            let ghost kept = self.space_list@;
            self.space_list.push(PanelInstance { config: entry_copy, output: None, bg_color: bg });
            proof {
                assert(empty_l@ =~= Seq::<Recreation>::empty());
                lemma_kept(old_self.space_list@, entry.name@, empty_l@);
                assert forall|a: int, b: int| 0 <= a < b < self.space_list@.len() implies !(
                self.space_list@[a].config.name@ == self.space_list@[b].config.name@ && out_key(
                    self.space_list@[a],
                ) == out_key(self.space_list@[b])) by {
                    assert(self.space_list@[a] == kept[a]);
                    if b < kept.len() {
                        assert(self.space_list@[b] == kept[b]);
                    }
                }
            }
            let mut list: Vec<Recreation> = Vec::new();
            list.push(Recreation { name: entry_name, output: None, priority: new_p });
            return UpdateOutcome::Recreated(list);
        }
        let (list, idx) = self.recreation_list(&entry_copy, old_p, new_p);
        self.replace_instances(&entry_name, &list, &idx);
        proof {
            assert(old_self.is_recreation_order(entry, self.config_list@, list@));
            let cfgs = self.config_list@;
            let last = cfgs.len() - 1;
            assert(cfgs[last] == entry);
            reveal(recreate_rule);
            assert forall|oi: int|
                0 <= oi < old_self.outputs@.len() && targets_output(entry, #[trigger] old_self.outputs@[oi]@)
                implies exists|k: int|
                0 <= k < list@.len() && list@[k].name@ == entry.name@ && rec_out_is(
                    list@[k],
                    old_self.outputs@[oi]@,
                ) by {
                assert(config_for_output(cfgs[last], old_self.outputs@[oi]@));
                assert(recreate_rule(cfgs[last], entry.name@, old_p, new_p));
            }
            let kept = kept_instances(old_self.space_list@, entry.name@, list@);
            lemma_kept(old_self.space_list@, entry.name@, list@);
            let fin = self.space_list@;
            assert forall|a: int, b: int| 0 <= a < b < fin.len() implies !(fin[a].config.name@
                == fin[b].config.name@ && out_key(fin[a]) == out_key(fin[b])) by {
                if b < kept.len() {
                    assert(fin[a] == kept[a] && fin[b] == kept[b]);
                } else if a >= kept.len() {
                    let ka = a - kept.len();
                    let kb = b - kept.len();
                    assert(new_instance_of(fin[kept.len() + ka], list@[ka], cfgs, old_self.current_bg(), old_self.dark_bg, old_self.light_bg));
                    assert(new_instance_of(fin[kept.len() + kb], list@[kb], cfgs, old_self.current_bg(), old_self.dark_bg, old_self.light_bg));
                } else {
                    let kb = b - kept.len();
                    assert(fin[a] == kept[a]);
                    assert(new_instance_of(fin[kept.len() + kb], list@[kb], cfgs, old_self.current_bg(), old_self.dark_bg, old_self.light_bg));
                    assert(!dropped(kept[a], entry.name@, list@));
                    if fin[a].config.name@ == fin[b].config.name@ && out_key(fin[a]) == out_key(fin[b]) {
                        assert(hit(kept[a], list@[kb]));
                    }
                }
            }
        }
        UpdateOutcome::Recreated(list)
    }

    /// The panels to recreate, on each output `entry` targets, that
    /// `recreate_rule` selects there, by descending priority; with the index
    /// of each one's configuration.
    fn recreation_list(&self, entry: &CosmicPanelConfig, old_p: u32, new_p: u32) -> (r: (
        Vec<Recreation>,
        Vec<usize>,
    ))
        requires
            self.outputs_distinct(),
        ensures
            recreation_order(
                self.outputs@,
                self.config_list@,
                entry.name@,
                output_view(entry.output),
                old_p,
                new_p,
                r.0@,
            ),
            r.0@.len() == r.1@.len(),
            forall|k: int|
                #![trigger r.1@[k]]
                0 <= k < r.0@.len() ==> r.1@[k] < self.config_list@.len() && r.0@[k].name@
                    == self.config_list@[r.1@[k] as int].name@ && r.0@[k].output is Some,
            unique_names(self.config_list@) ==> forall|a: int, b: int|
                0 <= a < b < r.0@.len() && rec_key(r.0@[a]) == rec_key(r.0@[b]) ==> r.0@[a].name@
                    != r.0@[b].name@,
    {
        let mut list: Vec<Recreation> = Vec::new();
        let mut all_idx: Vec<usize> = Vec::new();
        let ghost mut outs: Seq<int> = Seq::empty();
        let ghost mut srcs: Seq<int> = Seq::empty();
        let n = self.outputs.len();
        let mut oi: usize = 0;
        while oi < n
            invariant
                0 <= oi <= n,
                n == self.outputs@.len(),
                self.outputs_distinct(),
                order_upto(
                    self.outputs@,
                    self.config_list@,
                    entry.name@,
                    output_view(entry.output),
                    old_p,
                    new_p,
                    list@,
                    outs,
                    srcs,
                    oi as int,
                ),
                all_idx@.len() == srcs.len(),
                forall|k: int| 0 <= k < srcs.len() ==> #[trigger] all_idx@[k] as int == srcs[k],
            decreases n - oi,
        {
            let o = self.outputs[oi].clone();
            if targets_output_exec(entry, &o) {
                let (mut group, mut idx) = recreation_group(
                    &self.config_list,
                    &o,
                    &entry.name,
                    old_p,
                    new_p,
                );
                let ghost l0 = list@;
                let ghost g = group@;
                let ghost ix = idx@;
                let ghost a0 = all_idx@;
                list.append(&mut group);
                all_idx.append(&mut idx);
                proof {
                    lemma_order_step(
                        self.outputs@,
                        self.config_list@,
                        entry.name@,
                        output_view(entry.output),
                        old_p,
                        new_p,
                        l0,
                        outs,
                        srcs,
                        g,
                        ix,
                        oi as int,
                    );
                    outs = outs + Seq::new(g.len(), |k: int| oi as int);
                    srcs = srcs + Seq::new(g.len(), |k: int| ix[k] as int);
                    assert forall|k: int| 0 <= k < srcs.len() implies #[trigger] all_idx@[k] as int
                        == srcs[k] by {
                        if k < a0.len() {
                            assert(all_idx@[k] == a0[k]);
                        } else {
                            assert(all_idx@[k] == ix[k - a0.len()]);
                        }
                    }
                }
            } else {
                proof {
                    lemma_order_skip(
                        self.outputs@,
                        self.config_list@,
                        entry.name@,
                        output_view(entry.output),
                        old_p,
                        new_p,
                        list@,
                        outs,
                        srcs,
                        oi as int,
                    );
                }
            }
            oi += 1;
        }
        proof {
            lemma_order_final(
                self.outputs@,
                self.config_list@,
                entry.name@,
                output_view(entry.output),
                old_p,
                new_p,
                list@,
                outs,
                srcs,
            );
            lemma_list_keys(
                self.outputs@,
                self.config_list@,
                entry.name@,
                output_view(entry.output),
                old_p,
                new_p,
                list@,
                outs,
                srcs,
                all_idx@,
            );
        }
        (list, all_idx)
    }

    /// Destroys the instances of configuration `name` and those `list`
    /// recreates, keeping the others in order, then creates one instance per
    /// entry of `list`, running the configuration at `idx` on that output.
    fn replace_instances(&mut self, name: &String, list: &Vec<Recreation>, idx: &Vec<usize>)
        requires
            list@.len() == idx@.len(),
            forall|k: int|
                #![trigger idx@[k]]
                0 <= k < list@.len() ==> idx@[k] < old(self).config_list@.len() && list@[k].name@
                    == old(self).config_list@[idx@[k] as int].name@ && list@[k].output is Some,
        ensures
            final(self).config_list == old(self).config_list,
            final(self).outputs == old(self).outputs,
            final(self).is_dark == old(self).is_dark,
            final(self).light_bg == old(self).light_bg,
            final(self).dark_bg == old(self).dark_bg,
            recreated_instances(
                old(self).space_list@,
                final(self).space_list@,
                old(self).config_list@,
                name@,
                list@,
                old(self).current_bg(),
                old(self).dark_bg,
                old(self).light_bg,
            ),
    {
        let mut rest: Vec<PanelInstance> = Vec::new();
        std::mem::swap(&mut rest, &mut self.space_list);
        let ghost orig = rest@;
        proof {
            assert(orig.take(0) =~= Seq::<PanelInstance>::empty());
            assert(orig.skip(0) =~= orig);
        }
        let n = rest.len();
        let mut j: usize = 0;
        while j < n
            invariant
                n == orig.len(),
                0 <= j <= n,
                orig == old(self).space_list@,
                rest@ == orig.skip(j as int),
                self.space_list@ == kept_instances(orig.take(j as int), name@, list@),
                self.config_list == old(self).config_list,
                self.outputs == old(self).outputs,
                self.is_dark == old(self).is_dark,
                self.light_bg == old(self).light_bg,
                self.dark_bg == old(self).dark_bg,
            decreases n - j,
        {
            let x = rest.remove(0);
            proof {
                assert(x == orig[j as int]);
                assert(rest@ =~= orig.skip(j + 1));
                assert(orig.take(j + 1).drop_last() =~= orig.take(j as int));
                assert(orig.take(j + 1).last() == orig[j as int]);
            }
            let d = dropped_exec(&x, name, list);
            if !d {
                self.space_list.push(x);
            }
            j += 1;
        }
        proof {
            assert(orig.take(n as int) =~= orig);
        }
        let ghost kept = self.space_list@;
        let mut k: usize = 0;
        while k < list.len()
            invariant
                0 <= k <= list@.len(),
                list@.len() == idx@.len(),
                forall|m: int|
                    #![trigger idx@[m]]
                    0 <= m < list@.len() ==> idx@[m] < self.config_list@.len() && list@[m].name@
                        == self.config_list@[idx@[m] as int].name@ && list@[m].output is Some,
                kept == kept_instances(old(self).space_list@, name@, list@),
                self.space_list@.len() == kept.len() + k,
                forall|i: int| 0 <= i < kept.len() ==> #[trigger] self.space_list@[i] == kept[i],
                forall|m: int|
                    0 <= m < k ==> new_instance_of(
                        #[trigger] self.space_list@[kept.len() + m],
                        list@[m],
                        old(self).config_list@,
                        old(self).current_bg(),
                        old(self).dark_bg,
                        old(self).light_bg,
                    ),
                self.config_list == old(self).config_list,
                self.outputs == old(self).outputs,
                self.is_dark == old(self).is_dark,
                self.light_bg == old(self).light_bg,
                self.dark_bg == old(self).dark_bg,
            decreases list@.len() - k,
        {
            let ci = idx[k];
            assert(idx@[k as int] == ci);
            let mut c = self.config_list[ci].duplicate();
            let o = match &list[k].output {
                Some(o) => o.clone(),
                None => String::new(),
            };
            c.output = CosmicPanelOuput::Name(o.clone());
            let cur = self.cur_bg_color();
            let bg = background_color_of(&c, cur, self.dark_bg, self.light_bg);
            let inst = PanelInstance { config: c, output: Some(o), bg_color: bg };
            proof {
                assert(same_but_output(inst.config, self.config_list@[ci as int]));
                assert(new_instance_of(
                    inst,
                    list@[k as int],
                    old(self).config_list@,
                    old(self).current_bg(),
                    old(self).dark_bg,
                    old(self).light_bg,
                ));
            }
            self.space_list.push(inst);
            k += 1;
        }
    }

    fn update_in_place(&mut self, entry: &CosmicPanelConfig, bg: Rgba)
        ensures
            final(self).config_list == old(self).config_list,
            final(self).outputs == old(self).outputs,
            final(self).is_dark == old(self).is_dark,
            final(self).light_bg == old(self).light_bg,
            final(self).dark_bg == old(self).dark_bg,
            final(self).space_list@.len() == old(self).space_list@.len(),
            forall|i: int|
                0 <= i < old(self).space_list@.len() ==> {
                    let a = old(self).space_list@[i];
                    let b = #[trigger] final(self).space_list@[i];
                    &&& b.output == a.output
                    &&& a.config.name@ == entry.name@ ==> same_but_output(b.config, *entry)
                        && output_view(b.config.output) == output_view(a.config.output)
                        && b.bg_color == bg
                    &&& a.config.name@ != entry.name@ ==> b.config == a.config && b.bg_color == a.bg_color
                },
    {
        let n = self.space_list.len();
        let mut i: usize = 0;
        while i < n
            invariant
                n == old(self).space_list@.len(),
                0 <= i <= n,
                self.config_list == old(self).config_list,
                self.outputs == old(self).outputs,
                self.is_dark == old(self).is_dark,
                self.light_bg == old(self).light_bg,
                self.dark_bg == old(self).dark_bg,
                self.space_list@.len() == n,
                forall|j: int| i <= j < n ==> #[trigger] self.space_list@[j] == old(self).space_list@[j],
                forall|j: int|
                    0 <= j < i ==> {
                        let a = old(self).space_list@[j];
                        let b = #[trigger] self.space_list@[j];
                        &&& b.output == a.output
                        &&& a.config.name@ == entry.name@ ==> same_but_output(b.config, *entry)
                            && output_view(b.config.output) == output_view(a.config.output)
                            && b.bg_color == bg
                        &&& a.config.name@ != entry.name@ ==> b.config == a.config && b.bg_color == a.bg_color
                    },
            decreases n - i,
        {
            if self.space_list[i].config.name.eq(&entry.name) {
                let mut c = entry.duplicate();
                c.output = self.space_list[i].config.outputs();
                let out = clone_opt_string(&self.space_list[i].output);
                self.space_list.set(i, PanelInstance { config: c, output: out, bg_color: bg });
            }
            i += 1;
        }
    }
}

/// `list` is the recreation order for `entry` over the first `m` outputs,
/// element `k` standing on output `outs[k]` for configuration `srcs[k]`.
pub open spec fn order_upto(
    outputs: Seq<String>,
    cfgs: Seq<CosmicPanelConfig>,
    name: Seq<char>,
    target: Option<Option<Seq<char>>>,
    old_p: u32,
    new_p: u32,
    list: Seq<Recreation>,
    outs: Seq<int>,
    srcs: Seq<int>,
    m: int,
) -> bool {
    &&& list.len() == outs.len()
    &&& list.len() == srcs.len()
    &&& forall|k: int|
        #![trigger list[k]]
        0 <= k < list.len() ==> {
            let oi = outs[k];
            let i = srcs[k];
            &&& 0 <= oi < m
            &&& 0 <= i < cfgs.len()
            &&& view_targets(target, outputs[oi]@)
            &&& rec_out_is(list[k], outputs[oi]@)
            &&& config_for_output(cfgs[i], outputs[oi]@)
            &&& recreate_rule(cfgs[i], name, old_p, new_p)
            &&& list[k].name@ == cfgs[i].name@
            &&& list[k].priority == cfgs[i].priority()
        }
    &&& forall|oi: int, i: int|
        #![trigger config_for_output(cfgs[i], outputs[oi]@)]
        0 <= oi < m && 0 <= i < cfgs.len() && view_targets(target, outputs[oi]@)
            && config_for_output(cfgs[i], outputs[oi]@) && recreate_rule(
            cfgs[i],
            name,
            old_p,
            new_p,
        ) ==> exists|k: int| 0 <= k < list.len() && #[trigger] outs[k] == oi && srcs[k] == i
    &&& forall|a: int, b: int|
        0 <= a < b < list.len() && outs[a] == outs[b] ==> list[a].priority >= list[b].priority
    &&& forall|a: int, b: int| 0 <= a < b < list.len() && outs[a] == outs[b] ==> srcs[a] != srcs[b]
}

proof fn lemma_order_step(
    outputs: Seq<String>,
    cfgs: Seq<CosmicPanelConfig>,
    name: Seq<char>,
    target: Option<Option<Seq<char>>>,
    old_p: u32,
    new_p: u32,
    l0: Seq<Recreation>,
    outs: Seq<int>,
    srcs: Seq<int>,
    g: Seq<Recreation>,
    idx: Seq<usize>,
    m: int,
)
    requires
        0 <= m < outputs.len(),
        view_targets(target, outputs[m]@),
        order_upto(outputs, cfgs, name, target, old_p, new_p, l0, outs, srcs, m),
        g.len() == idx.len(),
        forall|k: int|
            0 <= k < g.len() ==> {
                let i = #[trigger] idx[k];
                &&& 0 <= i < cfgs.len()
                &&& config_for_output(cfgs[i as int], outputs[m]@)
                &&& recreate_rule(cfgs[i as int], name, old_p, new_p)
                &&& g[k].name@ == cfgs[i as int].name@
                &&& g[k].priority == cfgs[i as int].priority()
                &&& rec_out_is(g[k], outputs[m]@)
            },
        forall|i: int|
            0 <= i < cfgs.len() && config_for_output(cfgs[i], outputs[m]@) && recreate_rule(
                #[trigger] cfgs[i],
                name,
                old_p,
                new_p,
            ) ==> exists|k: int| 0 <= k < idx.len() && idx[k] == i,
        forall|a: int, b: int| 0 <= a < b < g.len() ==> g[a].priority >= g[b].priority,
        forall|a: int, b: int| 0 <= a < b < idx.len() ==> idx[a] != idx[b],
    ensures
        order_upto(
            outputs,
            cfgs,
            name,
            target,
            old_p,
            new_p,
            l0 + g,
            outs + Seq::new(g.len(), |k: int| m),
            srcs + Seq::new(g.len(), |k: int| idx[k] as int),
            m + 1,
        ),
{
    let list = l0 + g;
    let outs2 = outs + Seq::new(g.len(), |k: int| m);
    let srcs2 = srcs + Seq::new(g.len(), |k: int| idx[k] as int);
    assert forall|k: int| #![trigger list[k]] 0 <= k < list.len() implies {
        let oi = outs2[k];
        let i = srcs2[k];
        &&& 0 <= oi < m + 1
        &&& 0 <= i < cfgs.len()
        &&& view_targets(target, outputs[oi]@)
        &&& rec_out_is(list[k], outputs[oi]@)
        &&& config_for_output(cfgs[i], outputs[oi]@)
        &&& recreate_rule(cfgs[i], name, old_p, new_p)
        &&& list[k].name@ == cfgs[i].name@
        &&& list[k].priority == cfgs[i].priority()
    } by {
        if k < l0.len() {
            assert(list[k] == l0[k]);
            assert(outs2[k] == outs[k]);
            assert(srcs2[k] == srcs[k]);
        } else {
            let kk = k - l0.len();
            assert(list[k] == g[kk]);
            assert(outs2[k] == m);
            assert(srcs2[k] == idx[kk]);
        }
    }
    assert forall|oi: int, i: int|
        #![trigger config_for_output(cfgs[i], outputs[oi]@)]
        0 <= oi < m + 1 && 0 <= i < cfgs.len() && view_targets(target, outputs[oi]@)
            && config_for_output(cfgs[i], outputs[oi]@) && recreate_rule(
            cfgs[i],
            name,
            old_p,
            new_p,
        ) implies exists|k: int| 0 <= k < list.len() && #[trigger] outs2[k] == oi && srcs2[k] == i by {
        if oi < m {
            let k0 = choose|k: int| 0 <= k < l0.len() && #[trigger] outs[k] == oi && srcs[k] == i;
            assert(outs2[k0] == outs[k0]);
            assert(srcs2[k0] == srcs[k0]);
        } else {
            let k0 = choose|k: int| 0 <= k < idx.len() && idx[k] == i;
            assert(outs2[l0.len() + k0] == m);
            assert(srcs2[l0.len() + k0] == idx[k0]);
        }
    }
    assert forall|a: int, b: int|
        0 <= a < b < list.len() && outs2[a] == outs2[b] implies list[a].priority
        >= list[b].priority by {
        if b < l0.len() {
            assert(list[a] == l0[a]);
            assert(list[b] == l0[b]);
            assert(outs2[a] == outs[a]);
            assert(outs2[b] == outs[b]);
        } else if a >= l0.len() {
            assert(list[a] == g[a - l0.len()]);
            assert(list[b] == g[b - l0.len()]);
        } else {
            assert(outs2[a] == outs[a]);
            assert(outs2[b] == m);
            assert(list[a] == l0[a]);
        }
    }
    assert forall|a: int, b: int| 0 <= a < b < list.len() && outs2[a] == outs2[b] implies srcs2[a]
        != srcs2[b] by {
        if b < l0.len() {
            assert(outs2[a] == outs[a] && outs2[b] == outs[b]);
            assert(srcs2[a] == srcs[a] && srcs2[b] == srcs[b]);
        } else if a >= l0.len() {
            assert(srcs2[a] == idx[a - l0.len()] && srcs2[b] == idx[b - l0.len()]);
        } else {
            assert(outs2[a] == outs[a]);
            assert(outs2[b] == m);
        }
    }
}

proof fn lemma_order_skip(
    outputs: Seq<String>,
    cfgs: Seq<CosmicPanelConfig>,
    name: Seq<char>,
    target: Option<Option<Seq<char>>>,
    old_p: u32,
    new_p: u32,
    list: Seq<Recreation>,
    outs: Seq<int>,
    srcs: Seq<int>,
    m: int,
)
    requires
        0 <= m < outputs.len(),
        !view_targets(target, outputs[m]@),
        order_upto(outputs, cfgs, name, target, old_p, new_p, list, outs, srcs, m),
    ensures
        order_upto(outputs, cfgs, name, target, old_p, new_p, list, outs, srcs, m + 1),
{
}

/// The configuration index of each entry, and distinct names per output.
proof fn lemma_list_keys(
    outputs: Seq<String>,
    cfgs: Seq<CosmicPanelConfig>,
    name: Seq<char>,
    target: Option<Option<Seq<char>>>,
    old_p: u32,
    new_p: u32,
    list: Seq<Recreation>,
    outs: Seq<int>,
    srcs: Seq<int>,
    all_idx: Seq<usize>,
)
    requires
        forall|i: int, j: int| 0 <= i < j < outputs.len() ==> outputs[i]@ != outputs[j]@,
        order_upto(outputs, cfgs, name, target, old_p, new_p, list, outs, srcs, outputs.len() as int),
        all_idx.len() == srcs.len(),
        forall|k: int| 0 <= k < srcs.len() ==> #[trigger] all_idx[k] as int == srcs[k],
    ensures
        forall|k: int|
            #![trigger all_idx[k]]
            0 <= k < list.len() ==> all_idx[k] < cfgs.len() && list[k].name@ == cfgs[all_idx[k] as int].name@
                && list[k].output is Some,
        unique_names(cfgs) ==> forall|a: int, b: int|
            0 <= a < b < list.len() && rec_key(list[a]) == rec_key(list[b]) ==> list[a].name@
                != list[b].name@,
{
    assert forall|k: int|
        #![trigger all_idx[k]]
        0 <= k < list.len() implies all_idx[k] < cfgs.len() && list[k].name@ == cfgs[all_idx[k] as int].name@
            && list[k].output is Some by {
        assert(list[k] == list[k]);
    }
    if unique_names(cfgs) {
        assert forall|a: int, b: int|
            0 <= a < b < list.len() && rec_key(list[a]) == rec_key(list[b]) implies list[a].name@
                != list[b].name@ by {
            assert(list[a] == list[a]);
            assert(list[b] == list[b]);
            if outs[a] != outs[b] {
                if outs[a] < outs[b] {
                    assert(outputs[outs[a]]@ != outputs[outs[b]]@);
                } else {
                    assert(outputs[outs[b]]@ != outputs[outs[a]]@);
                }
            }
            assert(srcs[a] != srcs[b]);
            if srcs[a] < srcs[b] {
                assert(cfgs[srcs[a]].name@ != cfgs[srcs[b]].name@);
            } else {
                assert(cfgs[srcs[b]].name@ != cfgs[srcs[a]].name@);
            }
        }
    }
}

/// With distinct output names, the witnessed order is a recreation order.
proof fn lemma_order_final(
    outputs: Seq<String>,
    cfgs: Seq<CosmicPanelConfig>,
    name: Seq<char>,
    target: Option<Option<Seq<char>>>,
    old_p: u32,
    new_p: u32,
    list: Seq<Recreation>,
    outs: Seq<int>,
    srcs: Seq<int>,
)
    requires
        forall|i: int, j: int| 0 <= i < j < outputs.len() ==> outputs[i]@ != outputs[j]@,
        order_upto(outputs, cfgs, name, target, old_p, new_p, list, outs, srcs, outputs.len() as int),
    ensures
        recreation_order(outputs, cfgs, name, target, old_p, new_p, list),
{
    lemma_order_final_sound(outputs, cfgs, name, target, old_p, new_p, list, outs, srcs);
    lemma_order_final_complete(outputs, cfgs, name, target, old_p, new_p, list, outs, srcs);
    lemma_order_final_sorted(outputs, cfgs, name, target, old_p, new_p, list, outs, srcs);
}

proof fn lemma_order_final_sound(
    outputs: Seq<String>,
    cfgs: Seq<CosmicPanelConfig>,
    name: Seq<char>,
    target: Option<Option<Seq<char>>>,
    old_p: u32,
    new_p: u32,
    list: Seq<Recreation>,
    outs: Seq<int>,
    srcs: Seq<int>,
)
    requires
        order_upto(outputs, cfgs, name, target, old_p, new_p, list, outs, srcs, outputs.len() as int),
    ensures
        order_sound(outputs, cfgs, name, target, old_p, new_p, list),
{
    assert forall|k: int| 0 <= k < list.len() implies #[trigger] sound_at(
        outputs,
        cfgs,
        name,
        target,
        old_p,
        new_p,
        list,
        k,
    ) by {
        let oi = outs[k];
        let i = srcs[k];
        assert(rec_out_is(list[k], outputs[oi]@));
    }
}

proof fn lemma_order_final_complete(
    outputs: Seq<String>,
    cfgs: Seq<CosmicPanelConfig>,
    name: Seq<char>,
    target: Option<Option<Seq<char>>>,
    old_p: u32,
    new_p: u32,
    list: Seq<Recreation>,
    outs: Seq<int>,
    srcs: Seq<int>,
)
    requires
        order_upto(outputs, cfgs, name, target, old_p, new_p, list, outs, srcs, outputs.len() as int),
    ensures
        order_complete(outputs, cfgs, name, target, old_p, new_p, list),
{
    assert forall|oi: int, i: int|
        #![trigger config_for_output(cfgs[i], outputs[oi]@)]
        0 <= oi < outputs.len() && 0 <= i < cfgs.len() && view_targets(target, outputs[oi]@)
            && config_for_output(cfgs[i], outputs[oi]@) && recreate_rule(
            cfgs[i],
            name,
            old_p,
            new_p,
        ) implies exists|k: int|
        0 <= k < list.len() && list[k].name@ == cfgs[i].name@ && #[trigger] rec_out_is(
            list[k],
            outputs[oi]@,
        ) by {
        let k0 = choose|k: int| 0 <= k < list.len() && #[trigger] outs[k] == oi && srcs[k] == i;
    }
}

proof fn lemma_order_final_sorted(
    outputs: Seq<String>,
    cfgs: Seq<CosmicPanelConfig>,
    name: Seq<char>,
    target: Option<Option<Seq<char>>>,
    old_p: u32,
    new_p: u32,
    list: Seq<Recreation>,
    outs: Seq<int>,
    srcs: Seq<int>,
)
    requires
        forall|i: int, j: int| 0 <= i < j < outputs.len() ==> outputs[i]@ != outputs[j]@,
        order_upto(outputs, cfgs, name, target, old_p, new_p, list, outs, srcs, outputs.len() as int),
    ensures
        order_sorted(list),
{
    assert forall|a: int, b: int|
        0 <= a < b < list.len() && list[a].output == list[b].output implies list[a].priority
        >= list[b].priority by {
        if outs[a] != outs[b] {
            if outs[a] < outs[b] {
                assert(outputs[outs[a]]@ != outputs[outs[b]]@);
            } else {
                assert(outputs[outs[b]]@ != outputs[outs[a]]@);
            }
        }
    }
}

/// Entry `k` of `list` is a panel that `recreate_rule` selects on an output
/// the changed configuration targets.
pub open spec fn sound_at(
    outputs: Seq<String>,
    cfgs: Seq<CosmicPanelConfig>,
    name: Seq<char>,
    target: Option<Option<Seq<char>>>,
    old_p: u32,
    new_p: u32,
    list: Seq<Recreation>,
    k: int,
) -> bool {
    exists|oi: int, i: int|
        #![trigger rec_out_is(list[k], outputs[oi]@), cfgs[i]]
        0 <= oi < outputs.len() && 0 <= i < cfgs.len() && view_targets(target, outputs[oi]@)
            && rec_out_is(list[k], outputs[oi]@) && config_for_output(cfgs[i], outputs[oi]@)
            && recreate_rule(cfgs[i], name, old_p, new_p) && list[k].name@
            == cfgs[i].name@ && list[k].priority == cfgs[i].priority()
}

/// Each entry of `list` is a panel that `recreate_rule` selects on an output
/// the changed configuration targets.
pub open spec fn order_sound(
    outputs: Seq<String>,
    cfgs: Seq<CosmicPanelConfig>,
    name: Seq<char>,
    target: Option<Option<Seq<char>>>,
    old_p: u32,
    new_p: u32,
    list: Seq<Recreation>,
) -> bool {
    forall|k: int|
        0 <= k < list.len() ==> #[trigger] sound_at(
            outputs,
            cfgs,
            name,
            target,
            old_p,
            new_p,
            list,
            k,
        )
}

/// Every panel that `recreate_rule` selects on a targeted output is in `list`.
pub open spec fn order_complete(
    outputs: Seq<String>,
    cfgs: Seq<CosmicPanelConfig>,
    name: Seq<char>,
    target: Option<Option<Seq<char>>>,
    old_p: u32,
    new_p: u32,
    list: Seq<Recreation>,
) -> bool {
    forall|oi: int, i: int|
        #![trigger config_for_output(cfgs[i], outputs[oi]@)]
        0 <= oi < outputs.len() && 0 <= i < cfgs.len() && view_targets(target, outputs[oi]@)
            && config_for_output(cfgs[i], outputs[oi]@) && recreate_rule(
            cfgs[i],
            name,
            old_p,
            new_p,
        ) ==> exists|k: int|
            0 <= k < list.len() && list[k].name@ == cfgs[i].name@ && #[trigger] rec_out_is(
                list[k],
                outputs[oi]@,
            )
}

/// On each output, panels come by descending priority.
pub open spec fn order_sorted(list: Seq<Recreation>) -> bool {
    forall|a: int, b: int|
        0 <= a < b < list.len() && list[a].output == list[b].output ==> list[a].priority
            >= list[b].priority
}

/// `list` is the recreation order of a changed configuration `name` with
/// output target `target`, against the configurations `cfgs`: for each
/// targeted output, every panel that `recreate_rule` selects there and no
/// other, by descending priority.
pub open spec fn recreation_order(
    outputs: Seq<String>,
    cfgs: Seq<CosmicPanelConfig>,
    name: Seq<char>,
    target: Option<Option<Seq<char>>>,
    old_p: u32,
    new_p: u32,
    list: Seq<Recreation>,
) -> bool {
    &&& order_sound(outputs, cfgs, name, target, old_p, new_p, list)
    &&& order_complete(outputs, cfgs, name, target, old_p, new_p, list)
    &&& order_sorted(list)
}

/// Moving a panel to the opposite edge of its output cannot be done in place.
pub proof fn law_opposite_anchor_recreates(c: SpaceContainer, entry: CosmicPanelConfig)
    requires
        c.old_config(entry) matches Some(old) && old.anchor == entry.anchor.opposite_spec(),
    ensures
        c.must_recreate(entry),
{
}

/// Changing only the opacity of a configuration, whose name no other
/// configuration shares and whose instances are all there, is made in place.
pub proof fn law_opacity_only_updates(c: SpaceContainer, entry: CosmicPanelConfig, i: int)
    requires
        0 <= i < c.config_list@.len(),
        forall|j: int| 0 <= j < c.config_list@.len() && j != i ==> (#[trigger] c.config_list@[j]).name@ != entry.name@,
        same_but_output(c.config_list@[i], (CosmicPanelConfig { opacity: c.config_list@[i].opacity, ..entry })),
        output_view(c.config_list@[i].output) == output_view(entry.output),
        !c.output_count_mismatch(entry),
    ensures
        !c.must_recreate(entry),
{
    lemma_first_named(c.config_list@, entry.name@, i);
    assert(entry.anchor != entry.anchor.opposite_spec());
    assert forall|j: int| 0 <= j < c.config_list@.len() implies !#[trigger] forces_recreation(
        c.config_list@[j],
        entry,
    ) by {
        if j != i {
        }
    }
}

/// A change of size class, of orientation, of background or of a plugin
/// list of an existing configuration cannot be made in place.
pub proof fn law_changed_class_recreates(c: SpaceContainer, entry: CosmicPanelConfig, i: int)
    requires
        0 <= i < c.config_list@.len(),
        c.config_list@[i].name@ == entry.name@,
        c.config_list@[i].size != entry.size || c.config_list@[i].anchor.is_horizontal_spec()
            != entry.anchor.is_horizontal_spec() || c.config_list@[i].background != entry.background,
    ensures
        c.must_recreate(entry),
{
    assert(forces_recreation(c.config_list@[i], entry));
}

} // verus!
