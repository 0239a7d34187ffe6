//! Physical devices: what the driver says of each, whether the engine can
//! use it, and which of several is the best.

use vstd::prelude::*;
use crate::arena::changed;
use crate::arena::Change;
use crate::arena::Arena;
use crate::arena::Record;
use crate::arena::CAPACITY;
use crate::context::null_key;
use crate::context::Context;
use crate::error::DriverError;
use crate::error::EngineError;
use crate::key::Key;
use crate::kind::ResourceKind;
use crate::slot::SlotMappable;

verus! {

/// Queue flag: the family runs graphics operations.
pub const QUEUE_GRAPHICS: u32 = 0x1;

/// Queue flag: the family runs compute operations.
pub const QUEUE_COMPUTE: u32 = 0x2;

/// Queue flag: the family runs transfer operations.
pub const QUEUE_TRANSFER: u32 = 0x4;

/// Queue flag: the family manages sparse memory.
pub const QUEUE_SPARSE_BINDING: u32 = 0x8;

/// What a discrete device scores before its capability is counted.
pub const DISCRETE_BONUS: u64 = 1000;

/// What an integrated device scores before its capability is counted.
pub const INTEGRATED_BONUS: u64 = 100;

/// The class of a physical device.
#[derive(Clone, Copy, PartialEq, Eq, Structural, Debug)]
pub enum DeviceType {
    Other,
    IntegratedGpu,
    DiscreteGpu,
    VirtualGpu,
    Cpu,
}

/// One queue family of a physical device.
#[derive(Clone, Copy, PartialEq, Eq, Structural, Debug)]
pub struct QueueFamily {
    pub queue_flags: u32,
    pub queue_count: u32,
}

/// One layer that a physical device offers.
#[derive(Clone, PartialEq, Eq, Debug)]
pub struct Layer {
    pub name: String,
    pub spec_version: u32,
    pub implementation_version: u32,
    pub description: String,
}

/// One extension that a physical device offers.
#[derive(Clone, PartialEq, Eq, Debug)]
pub struct Extension {
    pub name: String,
    pub spec_version: u32,
}

/// What the driver reports of a physical device.
#[derive(Clone, PartialEq, Eq, Debug)]
pub struct Properties {
    pub device_type: DeviceType,
    pub max_image_dimension2_d: u32,
    pub queue_families: Vec<QueueFamily>,
    pub layers: Vec<Layer>,
    pub extensions: Vec<Extension>,
}

/// A physical device that is filed in its arena, with what the driver
/// reported of it.
#[derive(Clone, Debug)]
pub struct PhysicalDevice {
    key: Key,
    handle: u64,
    parent_instance: Key,
    properties: Properties,
}

/// Whether the flags `have` include all of the flags `want`.
pub open spec fn includes(have: u32, want: u32) -> bool {
    have & want == want
}

/// The families among the first `upto` whose flags include `flags`, each with
/// its index, in the order of the indices.
pub open spec fn families_with(families: Seq<QueueFamily>, flags: u32, upto: int) -> Seq<
    (usize, QueueFamily),
>
    decreases upto,
{
    if upto <= 0 {
        seq![]
    } else if includes(families[upto - 1].queue_flags, flags) {
        families_with(families, flags, upto - 1).push(((upto - 1) as usize, families[upto - 1]))
    } else {
        families_with(families, flags, upto - 1)
    }
}

/// Whether `index` is the first index that `wanted` holds of, and fits a `u32`.
pub open spec fn first_index(index: int, count: int, wanted: spec_fn(int) -> bool) -> bool {
    &&& 0 <= index < count
    &&& index <= u32::MAX
    &&& wanted(index)
    &&& forall|earlier: int| 0 <= earlier < index ==> !#[trigger] wanted(earlier)
}

/// Whether no index that fits a `u32` satisfies `wanted`.
pub open spec fn no_index(count: int, wanted: spec_fn(int) -> bool) -> bool {
    forall|index: int| 0 <= index < count && index <= u32::MAX ==> !#[trigger] wanted(index)
}

/// Whether one of the names in `required` is among the names in `offered`.
pub open spec fn offers_one_of(offered: Seq<Seq<char>>, required: Seq<Seq<char>>) -> bool {
    exists|i: int, j: int|
        0 <= i < required.len() && 0 <= j < offered.len() && required[i] == offered[j]
}

/// The names of the extensions that the engine cannot do without.
pub open spec fn required_extension_names() -> Seq<Seq<char>> {
    seq!["VK_KHR_swapchain"@]
}

/// The names of the extensions that the engine cannot do without.
pub fn required_extensions() -> (names: Vec<String>)
    ensures
        names@.len() == required_extension_names().len(),
        forall|i: int| 0 <= i < names@.len() ==> names@[i]@ == required_extension_names()[i],
{
    let mut names: Vec<String> = Vec::new();
    names.push("VK_KHR_swapchain".to_owned());
    names
}

impl Properties {
    /// The names of the extensions, in specifications.
    pub open spec fn extension_names(&self) -> Seq<Seq<char>> {
        Seq::new(self.extensions@.len(), |i: int| self.extensions@[i].name@)
    }

    /// Whether some queue family runs graphics operations.
    pub open spec fn has_graphics(&self) -> bool {
        exists|i: int|
            0 <= i < self.queue_families@.len() && includes(
                self.queue_families@[i].queue_flags,
                QUEUE_GRAPHICS,
            )
    }

    /// Whether the engine can use a device with these properties: it has a
    /// queue family for graphics, and it offers one of the required
    /// extensions.
    pub open spec fn suitable(&self) -> bool {
        self.has_graphics() && offers_one_of(self.extension_names(), required_extension_names())
    }

    /// The rank of a device with these properties: a bonus for its class,
    /// plus the largest image dimension it supports.
    pub open spec fn rank(&self) -> int {
        self.max_image_dimension2_d + match self.device_type {
            DeviceType::DiscreteGpu => DISCRETE_BONUS as int,
            DeviceType::IntegratedGpu => INTEGRATED_BONUS as int,
            _ => 0,
        }
    }
}

impl SlotMappable for PhysicalDevice {
    open spec fn resource_kind() -> ResourceKind {
        ResourceKind::PhysicalDevice
    }

    closed spec fn slot_key(&self) -> Key {
        self.key
    }

    fn key(&self) -> (key: Key) {
        self.key
    }

    fn slotmap(context: &Context) -> (arena: &Arena) {
        context.arena(ResourceKind::PhysicalDevice)
    }
}

impl PhysicalDevice {
    /// The native handle, in specifications.
    pub closed spec fn spec_handle(&self) -> u64 {
        self.handle
    }

    /// The key of the instance, in specifications.
    pub closed spec fn spec_parent_instance(&self) -> Key {
        self.parent_instance
    }

    /// What the driver reported, in specifications.
    pub closed spec fn spec_properties(&self) -> Properties {
        self.properties
    }

    /// Files the physical device with the native handle `handle` under its
    /// instance, and returns it with what the driver reported of it. An
    /// instance that is not live gives `NotFound(Instance)`; otherwise a
    /// failed query of the driver gives `CreationFailed`.
    pub fn new(
        context: &mut Context,
        instance_key: Key,
        handle: u64,
        reported: Result<Properties, DriverError>,
    ) -> (registered: Result<PhysicalDevice, EngineError>)
        requires
            old(context).records(ResourceKind::PhysicalDevice).dom().len() < CAPACITY,
        ensures
            match registered {
                Ok(device) => {
                    &&& old(context).records(ResourceKind::Instance).contains_key(instance_key)
                    &&& reported == Ok::<Properties, DriverError>(device.spec_properties())
                    &&& device.spec_handle() == handle
                    &&& device.spec_parent_instance() == instance_key
                    &&& device.slot_key().issuable()
                    &&& changed(
                        old(context).ledger(ResourceKind::PhysicalDevice),
                        final(context).ledger(ResourceKind::PhysicalDevice),
                        (Change::Filed {
                            key: device.slot_key(),
                            record: Record {
                                handle,
                                first_parent: instance_key,
                                second_parent: null_key(),
                            },
                        }),
                    )
                    &&& final(context).same_except(old(context), ResourceKind::PhysicalDevice)
                },
                Err(error) => {
                    &&& error == if !old(context).records(ResourceKind::Instance).contains_key(
                        instance_key,
                    ) {
                        EngineError::NotFound(ResourceKind::Instance)
                    } else {
                        EngineError::CreationFailed(reported->Err_0)
                    }
                    &&& !old(context).records(ResourceKind::Instance).contains_key(instance_key)
                        || reported is Err
                    &&& final(context).same_as(old(context))
                },
            },
    {
        let (properties, created) = match reported {
            Ok(properties) => (Some(properties), Ok(handle)),
            Err(error) => (None, Err(error)),
        };
        match context.register(ResourceKind::PhysicalDevice, instance_key, Key::null(), created) {
            Ok(key) => Ok(
                PhysicalDevice {
                    key,
                    handle,
                    parent_instance: instance_key,
                    properties: properties.unwrap(),
                },
            ),
            Err(error) => Err(error),
        }
    }

    /// The native handle of the device.
    pub fn handle(&self) -> (handle: u64)
        ensures
            handle == self.spec_handle(),
    {
        self.handle
    }

    /// The key of the instance that enumerated the device.
    pub fn parent_instance(&self) -> (key: Key)
        ensures
            key == self.spec_parent_instance(),
    {
        self.parent_instance
    }

    /// What the driver reported of the device.
    pub fn properties(&self) -> (properties: &Properties)
        ensures
            *properties == self.spec_properties(),
    {
        &self.properties
    }

    /// Whether the engine can use the device: it has a queue family for
    /// graphics, and it offers one of the required extensions.
    pub fn is_suitable(&self) -> (suitable: bool)
        ensures
            suitable == self.spec_properties().suitable(),
    {
        let ghost families = self.properties.queue_families@;
        let ghost found = families_with(families, QUEUE_GRAPHICS, families.len() as int);
        assert(families.len() == self.properties.queue_families.len());
        if self.queue_family_properties_with(QUEUE_GRAPHICS).len() == 0 {
            proof {
                lemma_families_with(families, QUEUE_GRAPHICS);
                if self.properties.has_graphics() {
                    let i = choose|i: int|
                        0 <= i < families.len() && includes(families[i].queue_flags, QUEUE_GRAPHICS);
                    assert(found.contains((i as usize, families[i])));
                }
            }
            return false;
        }
        proof {
            lemma_families_with(families, QUEUE_GRAPHICS);
            let first = found[0];
            assert(0 <= first.0 < families.len() && includes(
                families[first.0 as int].queue_flags,
                QUEUE_GRAPHICS,
            ));
            assert(self.properties.has_graphics());
        }
        let required = required_extensions();
        let ghost offered = self.properties.extension_names();
        let mut i: usize = 0;
        while i < required.len()
            invariant
                i <= required.len(),
                required@.len() == required_extension_names().len(),
                forall|k: int|
                    0 <= k < required@.len() ==> required@[k]@ == required_extension_names()[k],
                offered == self.properties.extension_names(),
                self.properties.has_graphics(),
                forall|a: int, b: int|
                    0 <= a < i && 0 <= b < offered.len() ==> #[trigger] required_extension_names()[a]
                        != #[trigger] offered[b],
            decreases required.len() - i,
        {
            let mut j: usize = 0;
            while j < self.properties.extensions.len()
                invariant
                    i < required.len(),
                    j <= self.properties.extensions.len(),
                    required@.len() == required_extension_names().len(),
                    required@[i as int]@ == required_extension_names()[i as int],
                    offered == self.properties.extension_names(),
                    self.properties.has_graphics(),
                    forall|b: int|
                        0 <= b < j ==> required_extension_names()[i as int] != #[trigger] offered[b],
                decreases self.properties.extensions.len() - j,
            {
                if required[i] == self.properties.extensions[j].name {
                    assert(0 <= i < required_extension_names().len() && 0 <= j < offered.len()
                        && required_extension_names()[i as int] == offered[j as int]);
                    assert(offers_one_of(offered, required_extension_names()));
                    return true;
                }
                j += 1;
            }
            i += 1;
        }
        proof {
            if offers_one_of(offered, required_extension_names()) {
                let (a, b) = choose|a: int, b: int|
                    0 <= a < required_extension_names().len() && 0 <= b < offered.len()
                        && required_extension_names()[a] == offered[b];
                assert(required_extension_names()[a] != offered[b]);
            }
        }
        false
    }

    /// The rank of the device: a bonus for its class, 1000 for a discrete and
    /// 100 for an integrated device, plus the largest image dimension that it
    /// supports.
    pub fn score(&self) -> (score: u64)
        ensures
            score == self.spec_properties().rank(),
    {
        let bonus: u64 = match self.properties.device_type {
            DeviceType::DiscreteGpu => DISCRETE_BONUS,
            DeviceType::IntegratedGpu => INTEGRATED_BONUS,
            _ => 0,
        };
        bonus + self.properties.max_image_dimension2_d as u64
    }

    /// The queue families of the device.
    pub fn queue_family_properties(&self) -> (families: &Vec<QueueFamily>)
        ensures
            *families == self.spec_properties().queue_families,
    {
        &self.properties.queue_families
    }

    /// The queue families whose flags include `flags`, each with its index,
    /// in the order of the indices.
    pub fn queue_family_properties_with(&self, flags: u32) -> (found: Vec<(usize, QueueFamily)>)
        ensures
            found@ == families_with(
                self.spec_properties().queue_families@,
                flags,
                self.spec_properties().queue_families@.len() as int,
            ),
    {
        let mut found: Vec<(usize, QueueFamily)> = Vec::new();
        let mut index: usize = 0;
        while index < self.properties.queue_families.len()
            invariant
                index <= self.properties.queue_families.len(),
                found@ == families_with(self.properties.queue_families@, flags, index as int),
            decreases self.properties.queue_families.len() - index,
        {
            let family = self.properties.queue_families[index];
            if family.queue_flags & flags == flags {
                found.push((index, family));
            }
            index += 1;
        }
        found
    }

    /// The layers that the device offers.
    pub fn layer_properties(&self) -> (layers: &Vec<Layer>)
        ensures
            *layers == self.spec_properties().layers,
    {
        &self.properties.layers
    }

    /// The extensions that the device offers.
    pub fn extension_properties(&self) -> (extensions: &Vec<Extension>)
        ensures
            *extensions == self.spec_properties().extensions,
    {
        &self.properties.extensions
    }

    /// The index of the first queue family that runs graphics operations.
    /// Without such a family the error is `NoSuitableCandidate`.
    pub fn graphics_family_index(&self) -> (index: Result<u32, EngineError>)
        ensures
            match index {
                Ok(index) => first_index(
                    index as int,
                    self.spec_properties().queue_families@.len() as int,
                    |i: int|
                        includes(
                            self.spec_properties().queue_families@[i].queue_flags,
                            QUEUE_GRAPHICS,
                        ),
                ),
                Err(error) => error == EngineError::NoSuitableCandidate && no_index(
                    self.spec_properties().queue_families@.len() as int,
                    |i: int|
                        includes(
                            self.spec_properties().queue_families@[i].queue_flags,
                            QUEUE_GRAPHICS,
                        ),
                ),
            },
    {
        let mut index: usize = 0;
        while index < self.properties.queue_families.len() && index <= u32::MAX as usize
            invariant
                index <= self.properties.queue_families.len(),
                forall|earlier: int|
                    0 <= earlier < index ==> !includes(
                        self.properties.queue_families@[earlier].queue_flags,
                        QUEUE_GRAPHICS,
                    ),
            decreases self.properties.queue_families.len() - index,
        {
            if self.properties.queue_families[index].queue_flags & QUEUE_GRAPHICS == QUEUE_GRAPHICS {
                return Ok(index as u32);
            }
            index += 1;
        }
        Err(EngineError::NoSuitableCandidate)
    }

    /// The index of the first queue family that can present to a surface,
    /// given for each family, by index, whether the driver says it can.
    /// Without such a family the error is `NoSuitableCandidate`.
    pub fn present_family_index(&self, supported: &Vec<bool>) -> (index: Result<u32, EngineError>)
        ensures
            match index {
                Ok(index) => first_index(
                    index as int,
                    self.spec_properties().queue_families@.len() as int,
                    |i: int| i < supported@.len() && supported@[i],
                ),
                Err(error) => error == EngineError::NoSuitableCandidate && no_index(
                    self.spec_properties().queue_families@.len() as int,
                    |i: int| i < supported@.len() && supported@[i],
                ),
            },
    {
        let mut index: usize = 0;
        while index < self.properties.queue_families.len() && index <= u32::MAX as usize
            invariant
                index <= self.properties.queue_families.len(),
                forall|earlier: int|
                    0 <= earlier < index ==> !(earlier < supported@.len() && supported@[earlier]),
            decreases self.properties.queue_families.len() - index,
        {
            if index < supported.len() && supported[index] {
                return Ok(index as u32);
            }
            index += 1;
        }
        Err(EngineError::NoSuitableCandidate)
    }
}

/// `families_with` lists exactly the families whose flags include `flags`:
/// every listed pair is an index with its family, the family includes the
/// flags, the indices ascend, and no such family is left out.
pub proof fn lemma_families_with(families: Seq<QueueFamily>, flags: u32)
    requires
        families.len() <= usize::MAX,
    ensures
        forall|k: int|
            0 <= k < families_with(families, flags, families.len() as int).len() ==> {
                let pair = #[trigger] families_with(families, flags, families.len() as int)[k];
                &&& pair.0 < families.len()
                &&& pair.1 == families[pair.0 as int]
                &&& includes(pair.1.queue_flags, flags)
            },
        forall|k: int, l: int|
            0 <= k < l < families_with(families, flags, families.len() as int).len()
                ==> families_with(families, flags, families.len() as int)[k].0 < families_with(
                families,
                flags,
                families.len() as int,
            )[l].0,
        forall|i: int|
            0 <= i < families.len() && includes(#[trigger] families[i].queue_flags, flags)
                ==> families_with(families, flags, families.len() as int).contains(
                (i as usize, families[i]),
            ),
{
    lemma_families_with_upto(families, flags, families.len() as int);
}

proof fn lemma_families_with_upto(families: Seq<QueueFamily>, flags: u32, upto: int)
    requires
        0 <= upto <= families.len() <= usize::MAX,
    ensures
        forall|k: int|
            0 <= k < families_with(families, flags, upto).len() ==> {
                let pair = #[trigger] families_with(families, flags, upto)[k];
                &&& pair.0 < upto
                &&& pair.1 == families[pair.0 as int]
                &&& includes(pair.1.queue_flags, flags)
            },
        forall|k: int, l: int|
            0 <= k < l < families_with(families, flags, upto).len() ==> families_with(
                families,
                flags,
                upto,
            )[k].0 < families_with(families, flags, upto)[l].0,
        forall|i: int|
            0 <= i < upto && includes(#[trigger] families[i].queue_flags, flags) ==> families_with(
                families,
                flags,
                upto,
            ).contains((i as usize, families[i])),
    decreases upto,
{
    if upto > 0 {
        lemma_families_with_upto(families, flags, upto - 1);
        let before = families_with(families, flags, upto - 1);
        let now = families_with(families, flags, upto);
        assert forall|k: int| 0 <= k < now.len() implies {
            let pair = #[trigger] now[k];
            &&& pair.0 < upto
            &&& pair.1 == families[pair.0 as int]
            &&& includes(pair.1.queue_flags, flags)
        } by {
            if k < before.len() {
                assert(now[k] == before[k]);
            }
        }
        assert forall|k: int, l: int| 0 <= k < l < now.len() implies now[k].0 < now[l].0 by {
            assert(now[k] == before[k]);
            if l < before.len() {
                assert(now[l] == before[l]);
            }
        }
        assert forall|i: int|
            0 <= i < upto && includes(#[trigger] families[i].queue_flags, flags) implies now.contains(
            (i as usize, families[i]),
        ) by {
            if i < upto - 1 {
                let k = choose|k: int|
                    0 <= k < before.len() && before[k] == (i as usize, families[i]);
                assert(now[k] == (i as usize, families[i]));
            } else {
                assert(now[now.len() - 1] == (i as usize, families[i]));
            }
        }
    }
}


/// Whether the candidate at `best` is the one to pick: it is suitable, no
/// suitable candidate ranks higher, and every suitable candidate before it
/// ranks lower.
pub open spec fn is_best(candidates: Seq<PhysicalDevice>, best: int) -> bool {
    &&& 0 <= best < candidates.len()
    &&& candidates[best].spec_properties().suitable()
    &&& forall|i: int|
        0 <= i < candidates.len() && (#[trigger] candidates[i]).spec_properties().suitable()
            ==> candidates[i].spec_properties().rank() <= candidates[best].spec_properties().rank()
    &&& forall|i: int|
        0 <= i < best && (#[trigger] candidates[i]).spec_properties().suitable()
            ==> candidates[i].spec_properties().rank() < candidates[best].spec_properties().rank()
}

/// Whether none of the candidates is suitable.
pub open spec fn none_suitable(candidates: Seq<PhysicalDevice>) -> bool {
    forall|i: int|
        0 <= i < candidates.len() ==> !(#[trigger] candidates[i]).spec_properties().suitable()
}

impl PhysicalDevice {
    /// Picks the physical device for the engine: the index of the suitable
    /// candidate with the highest score, the first of them where several
    /// score the same. Unsuitable candidates are left out before any score is
    /// compared. Without a suitable candidate the error is
    /// `NoSuitableCandidate`.
    pub fn select(candidates: &Vec<PhysicalDevice>) -> (selected: Result<usize, EngineError>)
        ensures
            match selected {
                Ok(best) => is_best(candidates@, best as int),
                Err(error) => error == EngineError::NoSuitableCandidate && none_suitable(
                    candidates@,
                ),
            },
    {
        let mut best: Option<usize> = None;
        let mut best_score: u64 = 0;
        let mut index: usize = 0;
        while index < candidates.len()
            invariant
                index <= candidates.len(),
                match best {
                    Some(best) => {
                        &&& best < index
                        &&& best_score == candidates@[best as int].spec_properties().rank()
                        &&& is_best(candidates@.subrange(0, index as int), best as int)
                    },
                    None => none_suitable(candidates@.subrange(0, index as int)),
                },
            decreases candidates.len() - index,
        {
            let ghost seen = candidates@.subrange(0, index as int);
            let ghost seen_now = candidates@.subrange(0, index + 1);
            assert forall|i: int| 0 <= i < index implies seen_now[i] == seen[i] by {}
            let candidate = &candidates[index];
            if candidate.is_suitable() {
                let score = candidate.score();
                let better = match best {
                    Some(_) => score > best_score,
                    None => true,
                };
                if better {
                    best = Some(index);
                    best_score = score;
                }
            }
            proof {
                match best {
                    Some(chosen) => {
                        let top = seen_now[chosen as int].spec_properties().rank();
                        assert forall|i: int|
                            0 <= i < seen_now.len() && (
                            #[trigger] seen_now[i]).spec_properties().suitable() implies seen_now[i]
                            .spec_properties().rank() <= top by {
                            if i < index {
                                assert(seen[i].spec_properties().suitable());
                            }
                        }
                        assert forall|i: int|
                            0 <= i < chosen && (
                            #[trigger] seen_now[i]).spec_properties().suitable() implies seen_now[i]
                            .spec_properties().rank() < top by {
                            assert(seen[i].spec_properties().suitable());
                        }
                    },
                    None => {
                        assert forall|i: int| 0 <= i < seen_now.len() implies !(
                        #[trigger] seen_now[i]).spec_properties().suitable() by {
                            if i < index {
                                assert(!seen[i].spec_properties().suitable());
                            }
                        }
                    },
                }
            }
            index += 1;
        }
        proof {
            assert(candidates@.subrange(0, index as int) =~= candidates@);
        }
        match best {
            Some(best) => Ok(best),
            None => Err(EngineError::NoSuitableCandidate),
        }
    }
}

/// Of two suitable candidates the one with the higher score is picked,
/// whatever its class: a discrete device has 1000 added to its largest image
/// dimension and an integrated one 100, and nothing else counts.
pub proof fn lemma_selection_goes_by_score(candidates: Seq<PhysicalDevice>, best: int, other: int)
    requires
        is_best(candidates, best),
        0 <= other < candidates.len(),
        candidates[other].spec_properties().suitable(),
    ensures
        candidates[other].spec_properties().rank() <= candidates[best].spec_properties().rank(),
        candidates[best].spec_properties().rank() == candidates[best].spec_properties()
            .max_image_dimension2_d + (match candidates[best].spec_properties().device_type {
            DeviceType::DiscreteGpu => 1000int,
            DeviceType::IntegratedGpu => 100int,
            _ => 0int,
        }),
{
}

/// The pick is unique: two indices that are both best are the same index.
pub proof fn lemma_best_is_unique(candidates: Seq<PhysicalDevice>, first: int, second: int)
    requires
        is_best(candidates, first),
        is_best(candidates, second),
    ensures
        first == second,
{
}

} // verus!
