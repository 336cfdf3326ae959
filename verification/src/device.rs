//! Choosing the physical device and the queue family to render with.
//!
//! A device is suitable if it can render without render passes and can present to a swapchain.
//! Of a suitable device the first queue family that does graphics and can present to the window
//! is taken. Of the devices with such a family, one of the best kind is taken, and the first of
//! those.
//!
//! Only the device itself can tell whether a family presents to the window, so [`DeviceSearch`]
//! asks one such question at a time. It asks about the graphics families of suitable devices only,
//! and about no family of a device after one that presents.

use vstd::prelude::*;
use vulkano::device::{DeviceExtensions, DeviceFeatures, QueueFlags};

verus! {

/// The extension sets of `vulkano`.
#[verifier::external_type_specification]
#[verifier::external_body]
pub struct ExDeviceExtensions(DeviceExtensions);

/// The feature sets of `vulkano`.
#[verifier::external_type_specification]
#[verifier::external_body]
pub struct ExDeviceFeatures(DeviceFeatures);

/// The queue family attributes of `vulkano`.
#[verifier::external_type_specification]
#[verifier::external_body]
pub struct ExQueueFlags(QueueFlags);

/// The device extensions that the choice of a device turns on.
#[derive(Debug, Clone, Copy, PartialEq, Eq, Structural)]
pub enum Extension {
    KhrSwapchain,
    KhrDynamicRendering,
}

impl Extension {
    /// The name that Vulkan gives the extension.
    pub open spec fn name(self) -> Seq<char> {
        match self {
            Extension::KhrSwapchain => "VK_KHR_swapchain"@,
            Extension::KhrDynamicRendering => "VK_KHR_dynamic_rendering"@,
        }
    }
}

/// The device features that the renderer turns on.
#[derive(Debug, Clone, Copy, PartialEq, Eq, Structural)]
pub enum Feature {
    DynamicRendering,
}

impl Feature {
    /// The name that Vulkan gives the feature.
    pub open spec fn name(self) -> Seq<char> {
        match self {
            Feature::DynamicRendering => "dynamicRendering"@,
        }
    }
}

/// What the queues of a family can do.
#[derive(Debug, Clone, Copy, PartialEq, Eq, Structural)]
pub enum QueueAbility {
    Graphics,
    Compute,
    Transfer,
    SparseBinding,
    Protected,
    VideoDecode,
    VideoEncode,
    OpticalFlow,
}

/// The names of the extensions that are members of the set.
pub uninterp spec fn extension_names(extensions: DeviceExtensions) -> Set<Seq<char>>;

/// The names of the features that are members of the set.
pub uninterp spec fn feature_names(features: DeviceFeatures) -> Set<Seq<char>>;

/// The attributes that are set.
pub uninterp spec fn queue_abilities(flags: QueueFlags) -> Set<QueueAbility>;

/// Calls `DeviceExtensions::empty` and sets one member: a set with that extension alone.
#[verifier::external_body]
fn just_extension(extension: Extension) -> (r: DeviceExtensions)
    ensures
        extension_names(r) == set![extension.name()],
{
    let none = DeviceExtensions::empty();
    match extension {
        Extension::KhrSwapchain => DeviceExtensions { khr_swapchain: true, ..none },
        Extension::KhrDynamicRendering => DeviceExtensions { khr_dynamic_rendering: true, ..none },
    }
}

/// Calls `DeviceFeatures::empty` and sets one member: a set with that feature alone.
#[verifier::external_body]
fn just_feature(feature: Feature) -> (r: DeviceFeatures)
    ensures
        feature_names(r) == set![feature.name()],
{
    let none = DeviceFeatures::empty();
    match feature {
        Feature::DynamicRendering => DeviceFeatures { dynamic_rendering: true, ..none },
    }
}

/// Calls `DeviceExtensions::contains`: whether all members of `need` are in `have`.
#[verifier::external_body]
fn includes(have: &DeviceExtensions, need: &DeviceExtensions) -> (r: bool)
    ensures
        r == extension_names(*need).subset_of(extension_names(*have)),
{
    have.contains(need)
}

/// Calls `QueueFlags::intersects` with the one attribute: whether it is set.
#[verifier::external_body]
fn can(flags: &QueueFlags, ability: QueueAbility) -> (r: bool)
    ensures
        r == queue_abilities(*flags).contains(ability),
{
    flags.intersects(match ability {
        QueueAbility::Graphics => QueueFlags::GRAPHICS,
        QueueAbility::Compute => QueueFlags::COMPUTE,
        QueueAbility::Transfer => QueueFlags::TRANSFER,
        QueueAbility::SparseBinding => QueueFlags::SPARSE_BINDING,
        QueueAbility::Protected => QueueFlags::PROTECTED,
        QueueAbility::VideoDecode => QueueFlags::VIDEO_DECODE,
        QueueAbility::VideoEncode => QueueFlags::VIDEO_ENCODE,
        QueueAbility::OpticalFlow => QueueFlags::OPTICAL_FLOW,
    })
}

/// A version of the Vulkan interface.
#[derive(Debug, Clone, Copy, PartialEq, Eq, Structural)]
pub struct ApiVersion {
    pub major: u32,
    pub minor: u32,
    pub patch: u32,
}

impl ApiVersion {
    /// Versions are ordered by their major number, then the minor one, then the patch.
    pub open spec fn reaches(self, other: ApiVersion) -> bool {
        ||| self.major > other.major
        ||| self.major == other.major && self.minor > other.minor
        ||| self.major == other.major && self.minor == other.minor && self.patch >= other.patch
    }

    /// Whether this version is `other` or a later one.
    pub fn at_least(&self, other: &ApiVersion) -> (r: bool)
        ensures
            r == self.reaches(*other),
    {
        if self.major != other.major {
            self.major > other.major
        } else if self.minor != other.minor {
            self.minor > other.minor
        } else {
            self.patch >= other.patch
        }
    }
}

/// What a physical device is.
#[derive(Debug, Clone, Copy, PartialEq, Eq, Structural)]
pub enum DeviceKind {
    DiscreteGpu,
    IntegratedGpu,
    VirtualGpu,
    Cpu,
    Other,
    /// A kind that is not listed here.
    Unlisted,
}

impl DeviceKind {
    /// The place of the kind in the order of preference; the lowest is the best.
    pub open spec fn place(self) -> int {
        match self {
            DeviceKind::DiscreteGpu => 0,
            DeviceKind::IntegratedGpu => 1,
            DeviceKind::VirtualGpu => 2,
            DeviceKind::Cpu => 3,
            DeviceKind::Other => 4,
            DeviceKind::Unlisted => 5,
        }
    }

    /// The place of the kind in the order of preference; the lowest is the best.
    pub fn rank(&self) -> (r: u32)
        ensures
            r == self.place(),
    {
        match self {
            DeviceKind::DiscreteGpu => 0,
            DeviceKind::IntegratedGpu => 1,
            DeviceKind::VirtualGpu => 2,
            DeviceKind::Cpu => 3,
            DeviceKind::Other => 4,
            DeviceKind::Unlisted => 5,
        }
    }
}

/// What is known of a physical device before any question is put to it.
pub struct DeviceProfile {
    pub api_version: ApiVersion,
    pub extensions: DeviceExtensions,
    pub kind: DeviceKind,
    /// The attributes of each queue family, in the device's order.
    pub queue_families: Vec<QueueFlags>,
}

impl DeviceProfile {
    /// Rendering without render passes is part of Vulkan 1.3 and an extension before that; the
    /// swapchain is an extension in any version.
    pub open spec fn suits(self) -> bool {
        &&& {
            ||| self.api_version.reaches(ApiVersion { major: 1, minor: 3, patch: 0 })
            ||| extension_names(self.extensions).contains(Extension::KhrDynamicRendering.name())
        }
        &&& extension_names(self.extensions).contains(Extension::KhrSwapchain.name())
    }

    /// Whether the device can run the renderer.
    pub fn is_suitable(&self) -> (r: bool)
        ensures
            r == self.suits(),
    {
        let dynamic_rendering = self.api_version.at_least(
            &ApiVersion { major: 1, minor: 3, patch: 0 },
        ) || includes(&self.extensions, &just_extension(Extension::KhrDynamicRendering));
        let required = required_device_extensions();
        let all_required = includes(&self.extensions, &required);
        proof {
            lemma_singleton_subset(
                extension_names(self.extensions),
                Extension::KhrDynamicRendering.name(),
            );
            lemma_singleton_subset(
                extension_names(self.extensions),
                Extension::KhrSwapchain.name(),
            );
        }
        dynamic_rendering && all_required
    }

    /// Whether the queue family does graphics.
    pub fn does_graphics(&self, family: usize) -> (r: bool)
        requires
            family < self.queue_families@.len(),
        ensures
            r == queue_abilities(self.queue_families@[family as int]).contains(
                QueueAbility::Graphics,
            ),
    {
        can(&self.queue_families[family], QueueAbility::Graphics)
    }
}

proof fn lemma_singleton_subset(names: Set<Seq<char>>, name: Seq<char>)
    ensures
        set![name].subset_of(names) == names.contains(name),
{
    if set![name].subset_of(names) {
        assert(set![name].contains(name));
    }
}

/// The extensions that the logical device is made with: the swapchain's, and no other.
pub fn required_device_extensions() -> (r: DeviceExtensions)
    ensures
        extension_names(r) == set![Extension::KhrSwapchain.name()],
{
    just_extension(Extension::KhrSwapchain)
}

/// The features that the logical device is made with: rendering without render passes, and no
/// other.
pub fn required_device_features() -> (r: DeviceFeatures)
    ensures
        feature_names(r) == set![Feature::DynamicRendering.name()],
{
    just_feature(Feature::DynamicRendering)
}

/// Any two versions can be told apart and stand in one line.
pub proof fn law_versions_stand_in_one_line(a: ApiVersion, b: ApiVersion, c: ApiVersion)
    ensures
        a.reaches(b) || b.reaches(a),
        a.reaches(b) && b.reaches(a) ==> a == b,
        a.reaches(b) && b.reaches(c) ==> a.reaches(c),
{
}

/// A version is compared by its numbers in turn: whichever differs first decides, and the rest
/// do not matter.
pub proof fn law_the_first_number_that_differs_decides(
    a: ApiVersion,
    b: ApiVersion,
    forth: bool,
    back: bool,
)
    requires
        call_ensures(ApiVersion::at_least, (&a, &b), forth),
        call_ensures(ApiVersion::at_least, (&b, &a), back),
    ensures
        a == b ==> forth && back,
        a.major > b.major ==> forth && !back,
        a.major == b.major && a.minor > b.minor ==> forth && !back,
        a.major == b.major && a.minor == b.minor && a.patch > b.patch ==> forth && !back,
        forth == a.reaches(b),
{
}

/// The kinds are ranked in this order, without ties.
pub proof fn law_kinds_are_ranked(a: DeviceKind, b: DeviceKind, of_a: u32, of_b: u32)
    requires
        call_ensures(DeviceKind::rank, (&a,), of_a),
        call_ensures(DeviceKind::rank, (&b,), of_b),
    ensures
        of_a == of_b <==> a == b,
        of_a < of_b <==> a.place() < b.place(),
        DeviceKind::DiscreteGpu.place() < DeviceKind::IntegratedGpu.place(),
        DeviceKind::IntegratedGpu.place() < DeviceKind::VirtualGpu.place(),
        DeviceKind::VirtualGpu.place() < DeviceKind::Cpu.place(),
        DeviceKind::Cpu.place() < DeviceKind::Other.place(),
        DeviceKind::Other.place() < DeviceKind::Unlisted.place(),
{
}

/// Without the swapchain extension no device is suitable. With it, one whose version is 1.3 or
/// later is, whatever other extensions it has, and so is one that has the extension for rendering
/// without render passes, whatever its version. An earlier version without that extension is not.
pub proof fn law_what_makes_a_device_suitable(device: DeviceProfile)
    ensures
        !extension_names(device.extensions).contains(Extension::KhrSwapchain.name())
            ==> !device.suits(),
        extension_names(device.extensions).contains(Extension::KhrSwapchain.name()) && (
        device.api_version.major > 1 || (device.api_version.major == 1 && device.api_version.minor
            >= 3)) ==> device.suits(),
        extension_names(device.extensions).contains(Extension::KhrSwapchain.name())
            && extension_names(device.extensions).contains(Extension::KhrDynamicRendering.name())
            ==> device.suits(),
        !extension_names(device.extensions).contains(Extension::KhrDynamicRendering.name()) && (
        device.api_version.major == 0 || (device.api_version.major == 1 && device.api_version.minor
            < 3)) ==> !device.suits(),
{
}

/// The answer about a device is yes exactly if it has the swapchain extension, and either its
/// version is 1.3 or later or it has the extension for rendering without render passes.
pub proof fn law_answer_on_suitability(device: DeviceProfile, r: bool)
    requires
        call_ensures(DeviceProfile::is_suitable, (&device,), r),
    ensures
        r ==> extension_names(device.extensions).contains(Extension::KhrSwapchain.name()),
        extension_names(device.extensions).contains(Extension::KhrSwapchain.name()) && (
        device.api_version.major > 1 || (device.api_version.major == 1 && device.api_version.minor
            >= 3)) ==> r,
        extension_names(device.extensions).contains(Extension::KhrSwapchain.name())
            && extension_names(device.extensions).contains(Extension::KhrDynamicRendering.name())
            ==> r,
        r && (device.api_version.major == 0 || (device.api_version.major == 1
            && device.api_version.minor < 3)) ==> extension_names(device.extensions).contains(
            Extension::KhrDynamicRendering.name(),
        ),
{
}

/// A suitable device stays so with more extensions, and with a later version; neither its kind nor
/// its queue families matter.
pub proof fn law_more_extensions_or_a_later_version_keep_a_device_suitable(
    device: DeviceProfile,
    other: DeviceProfile,
)
    requires
        device.suits(),
        extension_names(device.extensions).subset_of(extension_names(other.extensions)),
        other.api_version == device.api_version || other.api_version.major
            > device.api_version.major || (other.api_version.major == device.api_version.major && (
        other.api_version.minor > device.api_version.minor || (other.api_version.minor
            == device.api_version.minor && other.api_version.patch > device.api_version.patch))),
    ensures
        other.suits(),
{
}

/// Whether a queue family does graphics depends on its own attributes alone. That one attribute is
/// enough, others beside it do no harm, and no others take its place.
pub proof fn law_graphics_families_say_so(
    device: DeviceProfile,
    other: DeviceProfile,
    family: usize,
    of_other: usize,
    r: bool,
    r_other: bool,
)
    requires
        family < device.queue_families@.len(),
        of_other < other.queue_families@.len(),
        call_ensures(DeviceProfile::does_graphics, (&device, family), r),
        call_ensures(DeviceProfile::does_graphics, (&other, of_other), r_other),
    ensures
        device.queue_families@[family as int] == other.queue_families@[of_other as int] ==> r
            == r_other,
        queue_abilities(device.queue_families@[family as int]) == set![QueueAbility::Graphics]
            ==> r,
        queue_abilities(device.queue_families@[family as int]).subset_of(
            set![
                QueueAbility::Compute,
                QueueAbility::Transfer,
                QueueAbility::SparseBinding,
                QueueAbility::Protected,
                QueueAbility::VideoDecode,
                QueueAbility::VideoEncode,
                QueueAbility::OpticalFlow,
            ],
        ) ==> !r,
        r && queue_abilities(device.queue_families@[family as int]).subset_of(
            queue_abilities(other.queue_families@[of_other as int]),
        ) ==> r_other,
{
}

/// Every extension that the logical device is made with is one that a suitable device has, and the
/// swapchain's is among them.
pub proof fn law_suitable_devices_have_what_is_required(
    device: DeviceProfile,
    required: DeviceExtensions,
)
    requires
        device.suits(),
        call_ensures(required_device_extensions, (), required),
    ensures
        extension_names(required).subset_of(extension_names(device.extensions)),
        extension_names(required).contains(Extension::KhrSwapchain.name()),
{
}

} // verus!
