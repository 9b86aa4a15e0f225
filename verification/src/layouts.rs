//! The layouts of the 64-bit builds that can be introspected. Support for
//! another build is one more row here.

use crate::version::EntryLayout;
use crate::version::GuestVersion;
use crate::version::KernelLayout;
use crate::version::LayoutRegistry;
use crate::version::SUPPORTED_MAJOR_VERSION;
use vstd::prelude::*;

verus! {

/// The layout of a build, from the four offsets in which the builds differ;
/// all else is the same in every build.
pub open spec fn layout_with(
    process_id: usize,
    process_image_name: usize,
    process_environment: usize,
    process_section_base: usize,
) -> KernelLayout {
    KernelLayout {
        control_block: 0x20,
        current_thread: 0x8,
        thread_process: 0x220,
        process_id,
        process_image_name,
        process_environment,
        process_section_base,
        environment_loader: 0x18,
        loader_modules: 0x10,
        module_entry: EntryLayout {
            next: 0x0,
            base: 0x30,
            size: 0x40,
            full_name: 0x48,
            base_name: 0x58,
        },
    }
}

/// The layout of the build with this number, where the build is known.
pub open spec fn build_layout(build: u32) -> Option<KernelLayout> {
    if build == 10240 {
        Some(layout_with(0x2e8, 0x448, 0x3f8, 0x3c0))
    } else if build == 10586 || build == 14393 {
        Some(layout_with(0x2e8, 0x450, 0x3f8, 0x3c0))
    } else if build == 15063 || build == 16299 || build == 17134 || build == 17763 {
        Some(layout_with(0x2e0, 0x450, 0x3f8, 0x3c0))
    } else if build == 18362 {
        Some(layout_with(0x2e8, 0x450, 0x3f8, 0x3c8))
    } else if build == 19041 || build == 19045 || build == 22000 || build == 22621 || build
        == 22631 {
        Some(layout_with(0x440, 0x5a8, 0x550, 0x520))
    } else {
        None
    }
}

/// The layouts of the known builds by version: each known build, as minor
/// version zero of the supported major version.
pub open spec fn known_layouts() -> Map<GuestVersion, KernelLayout> {
    Map::new(
        |version: GuestVersion|
            version.major == SUPPORTED_MAJOR_VERSION && version.minor == 0 && build_layout(
                version.build,
            ) is Some,
        |version: GuestVersion| build_layout(version.build)->0,
    )
}

fn make_layout(
    process_id: usize,
    process_image_name: usize,
    process_environment: usize,
    process_section_base: usize,
) -> (layout: KernelLayout)
    ensures
        layout == layout_with(
            process_id,
            process_image_name,
            process_environment,
            process_section_base,
        ),
{
    KernelLayout {
        control_block: 0x20,
        current_thread: 0x8,
        thread_process: 0x220,
        process_id,
        process_image_name,
        process_environment,
        process_section_base,
        environment_loader: 0x18,
        loader_modules: 0x10,
        module_entry: EntryLayout {
            next: 0x0,
            base: 0x30,
            size: 0x40,
            full_name: 0x48,
            base_name: 0x58,
        },
    }
}

/// The layout of the build with this number, where the build is known.
pub fn layout_of_build(build: u32) -> (layout: Option<KernelLayout>)
    ensures
        layout == build_layout(build),
{
    if build == 10240 {
        Some(make_layout(0x2e8, 0x448, 0x3f8, 0x3c0))
    } else if build == 10586 || build == 14393 {
        Some(make_layout(0x2e8, 0x450, 0x3f8, 0x3c0))
    } else if build == 15063 || build == 16299 || build == 17134 || build == 17763 {
        Some(make_layout(0x2e0, 0x450, 0x3f8, 0x3c0))
    } else if build == 18362 {
        Some(make_layout(0x2e8, 0x450, 0x3f8, 0x3c8))
    } else if build == 19041 || build == 19045 || build == 22000 || build == 22621 || build
        == 22631 {
        Some(make_layout(0x440, 0x5a8, 0x550, 0x520))
    } else {
        None
    }
}

/// Registers the build with this number, where it is known.
fn register_build(registry: &mut LayoutRegistry, build: u32)
    requires
        build_layout(build) is Some,
        !old(registry)@.contains_key(
            GuestVersion { major: SUPPORTED_MAJOR_VERSION, minor: 0, build },
        ),
    ensures
        final(registry).wf(),
        final(registry)@ == old(registry)@.insert(
            GuestVersion { major: SUPPORTED_MAJOR_VERSION, minor: 0, build },
            build_layout(build)->0,
        ),
{
    match layout_of_build(build) {
        Some(layout) => {
            registry.register(
                GuestVersion { major: SUPPORTED_MAJOR_VERSION, minor: 0, build },
                layout,
            );
        },
        None => {},
    }
}

/// The registry of the known 64-bit builds.
pub fn windows_x64() -> (registry: LayoutRegistry)
    ensures
        registry.wf(),
        registry@ == known_layouts(),
{
    let mut registry = LayoutRegistry::new();
    register_build(&mut registry, 10240);
    register_build(&mut registry, 10586);
    register_build(&mut registry, 14393);
    register_build(&mut registry, 15063);
    register_build(&mut registry, 16299);
    register_build(&mut registry, 17134);
    register_build(&mut registry, 17763);
    register_build(&mut registry, 18362);
    register_build(&mut registry, 19041);
    register_build(&mut registry, 19045);
    register_build(&mut registry, 22000);
    register_build(&mut registry, 22621);
    register_build(&mut registry, 22631);
    assert(registry@ =~= known_layouts());
    registry
}

} // verus!
