use std::cell::RefCell;

use voxel_ray_traversal::device::{
    required_device_extensions, required_device_features, ApiVersion, DeviceKind, DeviceProfile,
};
use voxel_ray_traversal::search::{choose_device, DeviceSearch, SearchStep, Selection};
use vulkano::device::{DeviceExtensions, DeviceFeatures, QueueFlags};

fn version(major: u32, minor: u32, patch: u32) -> ApiVersion {
    ApiVersion { major, minor, patch }
}

fn swapchain_only() -> DeviceExtensions {
    DeviceExtensions { khr_swapchain: true, ..DeviceExtensions::empty() }
}

fn profile(kind: DeviceKind, families: &[QueueFlags]) -> DeviceProfile {
    DeviceProfile {
        api_version: version(1, 3, 0),
        extensions: swapchain_only(),
        kind,
        queue_families: families.to_vec(),
    }
}

fn selected(device: usize, queue_family_index: u32) -> Option<Selection> {
    Some(Selection { device, queue_family_index })
}

#[test]
fn versions_are_ordered_by_major_minor_patch() {
    assert!(version(1, 3, 0).at_least(&version(1, 3, 0)));
    assert!(version(1, 3, 1).at_least(&version(1, 3, 0)));
    assert!(version(1, 4, 0).at_least(&version(1, 3, 9)));
    assert!(version(2, 0, 0).at_least(&version(1, 3, 9)));
    assert!(!version(1, 2, 9).at_least(&version(1, 3, 0)));
    assert!(!version(1, 3, 0).at_least(&version(1, 3, 1)));
    assert!(!version(0, 9, 9).at_least(&version(1, 0, 0)));
}

#[test]
fn kinds_are_ranked_from_discrete_to_unlisted() {
    let kinds = [
        DeviceKind::DiscreteGpu,
        DeviceKind::IntegratedGpu,
        DeviceKind::VirtualGpu,
        DeviceKind::Cpu,
        DeviceKind::Other,
        DeviceKind::Unlisted,
    ];
    for (place, kind) in kinds.iter().enumerate() {
        assert_eq!(kind.rank() as usize, place);
    }
}

#[test]
fn required_extensions_are_the_swapchain_alone() {
    assert!(required_device_extensions() == swapchain_only());
}

#[test]
fn required_features_are_dynamic_rendering_alone() {
    let only = DeviceFeatures { dynamic_rendering: true, ..DeviceFeatures::empty() };
    assert!(required_device_features() == only);
}

#[test]
fn suitable_devices_have_dynamic_rendering_and_a_swapchain() {
    let dynamic = DeviceExtensions {
        khr_swapchain: true,
        khr_dynamic_rendering: true,
        ..DeviceExtensions::empty()
    };
    let mut device = profile(DeviceKind::Cpu, &[]);
    assert!(device.is_suitable());
    device.api_version = version(1, 2, 200);
    assert!(!device.is_suitable());
    device.extensions = dynamic;
    assert!(device.is_suitable());
    device.extensions = DeviceExtensions {
        khr_dynamic_rendering: true,
        ..DeviceExtensions::empty()
    };
    assert!(!device.is_suitable());
    device.api_version = version(1, 3, 0);
    assert!(!device.is_suitable());
    device.extensions = DeviceExtensions::empty();
    assert!(!device.is_suitable());
}

#[test]
fn graphics_is_one_attribute_among_others() {
    let device = profile(
        DeviceKind::Cpu,
        &[
            QueueFlags::GRAPHICS,
            QueueFlags::COMPUTE | QueueFlags::TRANSFER,
            QueueFlags::COMPUTE | QueueFlags::GRAPHICS | QueueFlags::TRANSFER,
            QueueFlags::empty(),
        ],
    );
    assert!(device.does_graphics(0));
    assert!(!device.does_graphics(1));
    assert!(device.does_graphics(2));
    assert!(!device.does_graphics(3));
}

#[test]
fn the_first_family_that_draws_and_presents_is_taken() {
    let families = [
        QueueFlags::TRANSFER,
        QueueFlags::GRAPHICS,
        QueueFlags::GRAPHICS | QueueFlags::COMPUTE,
        QueueFlags::GRAPHICS,
    ];
    let devices = vec![profile(DeviceKind::DiscreteGpu, &families)];
    assert_eq!(choose_device(devices, |_, family| family >= 2), selected(0, 2));
}

#[test]
fn a_better_kind_wins_wherever_it_stands() {
    let devices = vec![
        profile(DeviceKind::Cpu, &[QueueFlags::GRAPHICS]),
        profile(DeviceKind::IntegratedGpu, &[QueueFlags::GRAPHICS]),
        profile(DeviceKind::DiscreteGpu, &[QueueFlags::COMPUTE, QueueFlags::GRAPHICS]),
        profile(DeviceKind::Unlisted, &[QueueFlags::GRAPHICS]),
    ];
    assert_eq!(choose_device(devices, |_, _| true), selected(2, 1));
}

#[test]
fn the_first_of_equal_kinds_wins() {
    let devices = vec![
        profile(DeviceKind::Other, &[QueueFlags::GRAPHICS]),
        profile(DeviceKind::VirtualGpu, &[QueueFlags::GRAPHICS]),
        profile(DeviceKind::VirtualGpu, &[QueueFlags::GRAPHICS]),
    ];
    assert_eq!(choose_device(devices, |_, _| true), selected(1, 0));
}

#[test]
fn a_better_device_that_cannot_present_is_passed_over() {
    let devices = vec![
        profile(DeviceKind::DiscreteGpu, &[QueueFlags::GRAPHICS]),
        profile(DeviceKind::Cpu, &[QueueFlags::GRAPHICS]),
    ];
    assert_eq!(choose_device(devices, |device, _| device == 1), selected(1, 0));
}

#[test]
fn without_a_usable_device_there_is_no_choice() {
    assert_eq!(choose_device(vec![], |_, _| true), None);
    let mut old = profile(DeviceKind::DiscreteGpu, &[QueueFlags::GRAPHICS]);
    old.api_version = version(1, 2, 0);
    let devices = vec![old, profile(DeviceKind::DiscreteGpu, &[QueueFlags::COMPUTE])];
    assert_eq!(choose_device(devices, |_, _| true), None);
    let devices = vec![profile(DeviceKind::DiscreteGpu, &[QueueFlags::GRAPHICS])];
    assert_eq!(choose_device(devices, |_, _| false), None);
}

#[test]
fn only_questions_that_matter_are_asked() {
    let mut unsuitable = profile(DeviceKind::DiscreteGpu, &[QueueFlags::GRAPHICS]);
    unsuitable.extensions = DeviceExtensions::empty();
    let devices = vec![
        unsuitable,
        profile(
            DeviceKind::Cpu,
            &[QueueFlags::GRAPHICS, QueueFlags::TRANSFER, QueueFlags::GRAPHICS, QueueFlags::GRAPHICS],
        ),
        profile(DeviceKind::Other, &[QueueFlags::GRAPHICS]),
    ];
    let asked = RefCell::new(vec![]);
    let choice = choose_device(devices, |device, family| {
        asked.borrow_mut().push((device, family));
        (device, family) == (1, 2)
    });
    assert_eq!(asked.into_inner(), vec![(1, 0), (1, 2), (2, 0)]);
    assert_eq!(choice, selected(1, 2));
}

#[test]
fn a_search_can_be_led_by_hand() {
    let devices = vec![
        profile(DeviceKind::Cpu, &[QueueFlags::GRAPHICS]),
        profile(DeviceKind::DiscreteGpu, &[QueueFlags::GRAPHICS, QueueFlags::GRAPHICS]),
    ];
    let mut search = DeviceSearch::new(devices);
    assert_eq!(search.advance(), SearchStep::Ask { device: 0, family: 0 });
    assert_eq!(search.advance(), SearchStep::Ask { device: 0, family: 0 });
    search.answer(true);
    assert_eq!(search.advance(), SearchStep::Ask { device: 1, family: 0 });
    search.answer(false);
    assert_eq!(search.advance(), SearchStep::Ask { device: 1, family: 1 });
    search.answer(true);
    assert_eq!(search.advance(), SearchStep::Done(selected(1, 1)));
    assert_eq!(search.advance(), SearchStep::Done(selected(1, 1)));
}

#[test]
fn a_device_that_answers_differently_each_time_is_judged_by_its_answers() {
    let family = [QueueFlags::GRAPHICS, QueueFlags::GRAPHICS];
    let devices = vec![
        profile(DeviceKind::Cpu, &family),
        profile(DeviceKind::IntegratedGpu, &family),
        profile(DeviceKind::DiscreteGpu, &family),
    ];
    let count = RefCell::new(0);
    let choice = choose_device(devices, |_, _| {
        *count.borrow_mut() += 1;
        *count.borrow() % 2 == 0
    });
    assert_eq!(*count.borrow(), 6);
    assert_eq!(choice, selected(2, 1));
}
