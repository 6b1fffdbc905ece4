use surfman_chains::provider::{Provision, SurfaceProvider, SurfmanProvider};
use surfman_chains::surface::{Size2D, Surface, SurfaceAccess};

type Pool = SurfmanProvider<u32, &'static str>;

const PRODUCER: u64 = 7;
const SMALL: Size2D = Size2D { width: 16, height: 8 };
const LARGE: Size2D = Size2D { width: 640, height: 480 };

fn surface(handle: u32, size: Size2D) -> Surface<u32> {
    Surface { handle, size }
}

fn handles(surfaces: Result<Vec<Surface<u32>>, &'static str>) -> Vec<u32> {
    surfaces.unwrap().into_iter().map(|surface| surface.handle).collect()
}

fn taken(provider: &mut Pool) -> Option<u32> {
    provider.take_front_buffer().map(|surface| surface.handle)
}

// The handle of a recycled surface, or `None` if one is to be created.
fn provided(provider: &mut Pool, size: Size2D) -> Option<u32> {
    match provider.provide_surface(PRODUCER, size) {
        Provision::Recycled { surface } => {
            assert_eq!(surface.size, size);
            Some(surface.handle)
        }
        Provision::Create { size: asked, .. } => {
            assert_eq!(asked, size);
            None
        }
        Provision::Refused { .. } => panic!("nothing to refuse"),
    }
}

#[test]
fn new_provider_asks_for_surfaces() {
    let mut provider: Pool = SurfmanProvider::new(SurfaceAccess::GPUCPU);
    assert_eq!(taken(&mut provider), None);
    match provider.provide_surface(PRODUCER, SMALL) {
        Provision::Create { access, size } => {
            assert_eq!(access, SurfaceAccess::GPUCPU);
            assert_eq!(size, SMALL);
        }
        _ => panic!("nothing to recycle"),
    }
    assert_eq!(handles(provider.destroy_all_surfaces()), vec![]);
}

#[test]
fn sized_surfaces_are_always_created() {
    let mut provider: Pool = SurfmanProvider::new(SurfaceAccess::GPUOnly);
    provider.recycle_surface(surface(1, SMALL));
    match provider.create_sized_surface(SMALL) {
        Provision::Create { access, size } => {
            assert_eq!(access, SurfaceAccess::GPUOnly);
            assert_eq!(size, SMALL);
        }
        _ => panic!("a new surface is wanted"),
    }
    assert_eq!(handles(provider.destroy_all_surfaces()), vec![1]);
}

#[test]
fn first_surface_of_the_size_is_reused() {
    let mut provider: Pool = SurfmanProvider::new(SurfaceAccess::GPUOnly);
    provider.recycle_surface(surface(1, LARGE));
    provider.recycle_surface(surface(2, SMALL));
    provider.recycle_surface(surface(3, SMALL));
    provider.recycle_surface(surface(4, LARGE));
    assert_eq!(provided(&mut provider, SMALL), Some(2));
    // The last one took its place.
    assert_eq!(handles(provider.destroy_all_surfaces()), vec![1, 4, 3]);
}

#[test]
fn surfaces_are_reused_until_none_fits() {
    let mut provider: Pool = SurfmanProvider::new(SurfaceAccess::GPUOnly);
    provider.recycle_surface(surface(1, SMALL));
    provider.recycle_surface(surface(2, LARGE));
    provider.recycle_surface(surface(3, SMALL));
    assert_eq!(provided(&mut provider, SMALL), Some(1));
    assert_eq!(provided(&mut provider, SMALL), Some(3));
    assert_eq!(provided(&mut provider, SMALL), None);
    assert_eq!(provided(&mut provider, LARGE), Some(2));
    assert_eq!(provided(&mut provider, LARGE), None);
}

#[test]
fn front_buffer_is_taken_before_recycled_surfaces() {
    let mut provider: Pool = SurfmanProvider::new(SurfaceAccess::GPUOnly);
    assert_eq!(handles(provider.set_front_buffer(PRODUCER, surface(3, SMALL))), vec![]);
    provider.recycle_surface(surface(1, SMALL));
    provider.recycle_surface(surface(2, SMALL));
    assert_eq!(taken(&mut provider), Some(3));
    assert_eq!(taken(&mut provider), Some(2));
    assert_eq!(taken(&mut provider), Some(1));
    assert_eq!(taken(&mut provider), None);
}

#[test]
fn a_new_front_buffer_releases_the_recycled_surfaces() {
    let mut provider: Pool = SurfmanProvider::new(SurfaceAccess::GPUOnly);
    provider.recycle_surface(surface(1, SMALL));
    provider.recycle_surface(surface(2, LARGE));
    assert_eq!(handles(provider.set_front_buffer(PRODUCER, surface(3, SMALL))), vec![1, 2]);
    assert_eq!(handles(provider.destroy_all_surfaces()), vec![3]);
}

#[test]
fn the_front_buffer_is_recycled_once() {
    let mut provider: Pool = SurfmanProvider::new(SurfaceAccess::GPUOnly);
    assert!(provider.set_front_buffer(PRODUCER, surface(1, SMALL)).is_ok());
    provider.recycle_front_buffer(PRODUCER);
    provider.recycle_front_buffer(PRODUCER);
    assert_eq!(provided(&mut provider, SMALL), Some(1));
    assert_eq!(provided(&mut provider, SMALL), None);
}

#[test]
fn displaying_a_front_buffer_is_like_recycling_it() {
    let mut displayed: Pool = SurfmanProvider::new(SurfaceAccess::GPUOnly);
    let mut skipped: Pool = SurfmanProvider::new(SurfaceAccess::GPUOnly);
    assert!(displayed.set_front_buffer(PRODUCER, surface(1, SMALL)).is_ok());
    assert!(skipped.set_front_buffer(PRODUCER, surface(1, SMALL)).is_ok());
    let front = displayed.take_front_buffer().unwrap();
    displayed.recycle_surface(front);
    skipped.recycle_front_buffer(PRODUCER);
    assert_eq!(handles(displayed.destroy_all_surfaces()), vec![1]);
    assert_eq!(handles(skipped.destroy_all_surfaces()), vec![1]);
}

#[test]
fn all_surfaces_are_released_front_buffer_first() {
    let mut provider: Pool = SurfmanProvider::new(SurfaceAccess::GPUCPUWriteCombined);
    assert!(provider.set_front_buffer(PRODUCER, surface(3, SMALL)).is_ok());
    provider.recycle_surface(surface(1, SMALL));
    provider.recycle_surface(surface(2, SMALL));
    assert_eq!(handles(provider.destroy_all_surfaces()), vec![3, 1, 2]);
    assert_eq!(handles(provider.destroy_all_surfaces()), vec![]);
}
