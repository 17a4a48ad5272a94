//! The lookup index: resolves a component to its header in the scene-object
//! index, falling back on its instance id when its own ids miss.
use vstd::prelude::*;

use crate::soi::{
    find_located, first_located, Located, Soi, StaticTexture, StreamingCollisionModel,
    StreamingMotionPack, StreamingRenderableModel, StreamingTexture,
};
use crate::toc::{ids_of_instance, ComponentHeader, Section, Toc};

verus! {

/// The header a component resolves to: the first one under its own section
/// and component; failing that, the first one under the ids of the first
/// component with its instance id; failing both, none (a lookup miss).
pub open spec fn resolved<T: Located>(
    items: Seq<T>,
    sections: Seq<Section>,
    section_id: u32,
    component_id: u32,
    instance_id: u32,
) -> Option<T> {
    match first_located(items, section_id as i32, component_id as i32) {
        Some(h) => Some(h),
        None => match ids_of_instance(sections, instance_id, 0) {
            Some((s, c)) => first_located(items, s as i32, c),
            None => None,
        },
    }
}

/// A component that its own ids do not find, but whose instance id leads to
/// ids under which a header stands, resolves to that header: the one a
/// direct lookup of those ids finds. A component that neither way finds
/// resolves to nothing.
pub proof fn lemma_fallback_lookup<T: Located>(
    items: Seq<T>,
    sections: Seq<Section>,
    section_id: u32,
    component_id: u32,
    instance_id: u32,
    other_instance_id: u32,
)
    requires
        sections.len() <= i32::MAX,
        first_located(items, section_id as i32, component_id as i32) is None,
    ensures
        match ids_of_instance(sections, instance_id, 0) {
            Some((s, c)) => first_located(items, s as i32, c) is Some ==> resolved(
                items,
                sections,
                section_id,
                component_id,
                instance_id,
            ) == resolved(items, sections, s as u32, c as u32, other_instance_id),
            None => resolved(items, sections, section_id, component_id, instance_id) is None,
        },
{
    lemma_instance_section_bound(sections, instance_id, 0);
    if let Some((s, c)) = ids_of_instance(sections, instance_id, 0) {
        assert(((c as u32) as i32) == c) by (bit_vector);
        assert(((s as u32) as i32) == s as i32);
    }
}

/// The section index that an instance id leads to is one of the sections.
proof fn lemma_instance_section_bound(sections: Seq<Section>, instance_id: u32, base: int)
    ensures
        ids_of_instance(sections, instance_id, base) matches Some((s, c)) ==> base <= s < base
            + sections.len(),
    decreases sections.len(),
{
    if sections.len() > 0 {
        lemma_instance_section_bound(sections.drop_first(), instance_id, base + 1);
    }
}

/// The header that a component resolves to (see `resolved`).
fn resolve<'a, T: Located>(
    items: &'a Vec<T>,
    toc: &Toc,
    section_id: u32,
    component_id: u32,
    instance_id: u32,
) -> (r: Option<&'a T>)
    requires
        toc.sections@.len() <= i32::MAX,
    ensures
        r matches Some(x) ==> resolved(
            items@,
            toc.sections@,
            section_id,
            component_id,
            instance_id,
        ) == Some(*x),
        r is None <==> resolved(items@, toc.sections@, section_id, component_id, instance_id) is None,
{
    let direct = find_located(
        items,
        #[verifier::truncate] (section_id as i32),
        #[verifier::truncate] (component_id as i32),
    );
    if direct.is_some() {
        return direct;
    }
    proof {
        lemma_instance_section_bound(toc.sections@, instance_id, 0);
    }
    match toc.find_ids(instance_id) {
        Some((s, c)) => {
            assert(((c as i32) as u32) == c) by (bit_vector);
            find_located(items, s as i32, #[verifier::truncate] (c as i32))
        },
        None => None,
    }
}

/// The table of contents and the scene-object index of one scene, read together.
#[derive(Clone, Debug)]
pub struct SoiSoup {
    pub toc: Toc,
    pub soi: Soi,
}

/// The components of the sections, each with the index of its section: per
/// section, uncached components before cached ones.
pub open spec fn all_components(sections: Seq<Section>) -> Seq<(int, ComponentHeader)>
    decreases sections.len(),
{
    if sections.len() == 0 {
        seq![]
    } else {
        let i = sections.len() - 1;
        let s = sections.last();
        all_components(sections.drop_last()) + (s.uncached_components@ + s.cached_components@).map_values(
            |c: ComponentHeader| (i, c),
        )
    }
}

/// The sum of the sections' component counts.
pub open spec fn total_components(sections: Seq<Section>) -> int
    decreases sections.len(),
{
    if sections.len() == 0 {
        0
    } else {
        total_components(sections.drop_last()) + sections.last().header.total_component_count
    }
}

impl SoiSoup {
    /// Puts together a table of contents and a scene-object index.
    pub fn new(toc: Toc, soi: Soi) -> (r: SoiSoup)
        ensures
            r.toc == toc,
            r.soi == soi,
    {
        SoiSoup { toc, soi }
    }

    pub fn find_sections(&self) -> (r: &Vec<Section>)
        ensures
            r@ == self.toc.sections@,
    {
        &self.toc.sections
    }

    /// Every component of every section, with its section's index.
    pub fn find_components(&self) -> (r: Vec<(u32, &ComponentHeader)>)
        requires
            self.toc.sections@.len() <= u32::MAX,
        ensures
            r@.len() == all_components(self.toc.sections@).len(),
            forall|k: int|
                0 <= k < r@.len() ==> (#[trigger] r@[k]).0 as int == all_components(
                    self.toc.sections@,
                )[k].0 && *r@[k].1 == all_components(self.toc.sections@)[k].1,
    {
        let sections = &self.toc.sections;
        let mut out: Vec<(u32, &ComponentHeader)> = Vec::new();
        let mut i: usize = 0;
        while i < sections.len()
            invariant
                sections == &self.toc.sections,
                sections@.len() <= u32::MAX,
                i <= sections@.len(),
                out@.len() == all_components(sections@.subrange(0, i as int)).len(),
                forall|k: int|
                    0 <= k < out@.len() ==> (#[trigger] out@[k]).0 as int == all_components(
                        sections@.subrange(0, i as int),
                    )[k].0 && *out@[k].1 == all_components(sections@.subrange(0, i as int))[k].1,
            decreases sections@.len() - i,
        {
            let ghost prev = all_components(sections@.subrange(0, i as int));
            let ghost base_len = out@.len();
            let section = &sections[i];
            let ghost all = section.uncached_components@ + section.cached_components@;
            let mut k: usize = 0;
            while k < section.uncached_components.len()
                invariant
                    i < sections@.len() <= u32::MAX,
                    section == &sections@[i as int],
                    all == section.uncached_components@ + section.cached_components@,
                    base_len == prev.len(),
                    k <= section.uncached_components@.len(),
                    out@.len() == base_len + k,
                    forall|j: int|
                        0 <= j < base_len ==> (#[trigger] out@[j]).0 as int == prev[j].0
                            && *out@[j].1 == prev[j].1,
                    forall|j: int|
                        base_len <= j < out@.len() ==> (#[trigger] out@[j]).0 == i && *out@[j].1
                            == all[j - base_len],
                decreases section.uncached_components@.len() - k,
            {
                out.push((i as u32, &section.uncached_components[k]));
                k = k + 1;
            }
            let mut k: usize = 0;
            while k < section.cached_components.len()
                invariant
                    i < sections@.len() <= u32::MAX,
                    section == &sections@[i as int],
                    all == section.uncached_components@ + section.cached_components@,
                    base_len == prev.len(),
                    k <= section.cached_components@.len(),
                    out@.len() == base_len + section.uncached_components@.len() + k,
                    forall|j: int|
                        0 <= j < base_len ==> (#[trigger] out@[j]).0 as int == prev[j].0
                            && *out@[j].1 == prev[j].1,
                    forall|j: int|
                        base_len <= j < out@.len() ==> (#[trigger] out@[j]).0 == i && *out@[j].1
                            == all[j - base_len],
                decreases section.cached_components@.len() - k,
            {
                out.push((i as u32, &section.cached_components[k]));
                k = k + 1;
            }
            assert(sections@.subrange(0, i + 1).drop_last() =~= sections@.subrange(0, i as int));
            i = i + 1;
        }
        assert(sections@.subrange(0, sections@.len() as int) =~= sections@);
        out
    }

    pub fn streaming_textures(&self) -> (r: &[StreamingTexture])
        ensures
            r@ == self.soi.streaming_textures@,
    {
        self.soi.get_streaming_textures()
    }

    pub fn static_textures(&self) -> (r: &[StaticTexture])
        ensures
            r@ == self.soi.static_textures@,
    {
        self.soi.get_static_textures()
    }

    pub fn motion_packs(&self) -> (r: &[StreamingMotionPack])
        ensures
            r@ == self.soi.motion_packs@,
    {
        self.soi.get_motion_packs()
    }

    pub fn renderable_models(&self) -> (r: &[StreamingRenderableModel])
        ensures
            r@ == self.soi.renderable_models@,
    {
        self.soi.get_renderable_models()
    }

    pub fn collision_models(&self) -> (r: &[StreamingCollisionModel])
        ensures
            r@ == self.soi.collision_models@,
    {
        self.soi.get_collision_models()
    }

    /// The sum of the sections' component counts, where it fits a `u32`.
    pub fn component_count(&self) -> (r: u32)
        ensures
            0 <= total_components(self.toc.sections@) <= u32::MAX ==> r == total_components(
                self.toc.sections@,
            ),
    {
        let sections = &self.toc.sections;
        let mut sum: i128 = 0;
        let mut i: usize = 0;
        while i < sections.len()
            invariant
                sections == &self.toc.sections,
                i <= sections@.len(),
                sum == total_components(sections@.subrange(0, i as int)),
                -0x8000_0000 * i <= sum <= 0x7fff_ffff * i,
            decreases sections@.len() - i,
        {
            assert(sections@.subrange(0, i + 1).drop_last() =~= sections@.subrange(0, i as int));
            sum = sum + sections[i].header.total_component_count as i128;
            i = i + 1;
        }
        assert(sections@.subrange(0, sections@.len() as int) =~= sections@);
        #[verifier::truncate] (sum as u32)
    }

    /// The static texture that this component resolves to, if any.
    pub fn find_static_texture(&self, section_id: u32, component_id: u32, instance_id: u32) -> (r:
        Option<&StaticTexture>)
        requires
            self.toc.sections@.len() <= i32::MAX,
        ensures
            r matches Some(x) ==> resolved(
                self.soi.static_textures@,
                self.toc.sections@,
                section_id,
                component_id,
                instance_id,
            ) == Some(*x),
            r is None <==> resolved(
                self.soi.static_textures@,
                self.toc.sections@,
                section_id,
                component_id,
                instance_id,
            ) is None,
    {
        resolve(&self.soi.static_textures, &self.toc, section_id, component_id, instance_id)
    }

    /// The streaming texture that this component resolves to, if any.
    pub fn find_streaming_texture(&self, section_id: u32, component_id: u32, instance_id: u32) -> (r:
        Option<&StreamingTexture>)
        requires
            self.toc.sections@.len() <= i32::MAX,
        ensures
            r matches Some(x) ==> resolved(
                self.soi.streaming_textures@,
                self.toc.sections@,
                section_id,
                component_id,
                instance_id,
            ) == Some(*x),
            r is None <==> resolved(
                self.soi.streaming_textures@,
                self.toc.sections@,
                section_id,
                component_id,
                instance_id,
            ) is None,
    {
        resolve(&self.soi.streaming_textures, &self.toc, section_id, component_id, instance_id)
    }

    /// The motion pack that this component resolves to, if any.
    pub fn find_motion_pack(&self, section_id: u32, component_id: u32, instance_id: u32) -> (r:
        Option<&StreamingMotionPack>)
        requires
            self.toc.sections@.len() <= i32::MAX,
        ensures
            r matches Some(x) ==> resolved(
                self.soi.motion_packs@,
                self.toc.sections@,
                section_id,
                component_id,
                instance_id,
            ) == Some(*x),
            r is None <==> resolved(
                self.soi.motion_packs@,
                self.toc.sections@,
                section_id,
                component_id,
                instance_id,
            ) is None,
    {
        resolve(&self.soi.motion_packs, &self.toc, section_id, component_id, instance_id)
    }

    /// The collision model that this component resolves to, if any.
    pub fn find_collision_model(&self, section_id: u32, component_id: u32, instance_id: u32) -> (r:
        Option<&StreamingCollisionModel>)
        requires
            self.toc.sections@.len() <= i32::MAX,
        ensures
            r matches Some(x) ==> resolved(
                self.soi.collision_models@,
                self.toc.sections@,
                section_id,
                component_id,
                instance_id,
            ) == Some(*x),
            r is None <==> resolved(
                self.soi.collision_models@,
                self.toc.sections@,
                section_id,
                component_id,
                instance_id,
            ) is None,
    {
        resolve(&self.soi.collision_models, &self.toc, section_id, component_id, instance_id)
    }

    /// The renderable model that this component resolves to, if any.
    pub fn find_model(&self, section_id: u32, component_id: u32, instance_id: u32) -> (r: Option<
        &StreamingRenderableModel,
    >)
        requires
            self.toc.sections@.len() <= i32::MAX,
        ensures
            r matches Some(x) ==> resolved(
                self.soi.renderable_models@,
                self.toc.sections@,
                section_id,
                component_id,
                instance_id,
            ) == Some(*x),
            r is None <==> resolved(
                self.soi.renderable_models@,
                self.toc.sections@,
                section_id,
                component_id,
                instance_id,
            ) is None,
    {
        resolve(&self.soi.renderable_models, &self.toc, section_id, component_id, instance_id)
    }
}

} // verus!
