use surfman_chains::chain::{Creation, SwapChain};
use surfman_chains::device::{Reply, Request, Step};
use surfman_chains::gl::{Color, GlState};
use surfman_chains::provider::SurfmanProvider;
use surfman_chains::surface::{Error, Size2D, Surface, SurfaceAccess};

type Chain = SwapChain<u32, SurfmanProvider<u32, &'static str>>;

const PRODUCER: u64 = 7;
const STRANGER: u64 = 8;
const SIZE: Size2D = Size2D { width: 64, height: 48 };
const OTHER_SIZE: Size2D = Size2D { width: 32, height: 24 };

const GL_STATE: GlState = GlState {
    draw_framebuffer: 5,
    read_framebuffer: 6,
    clear_color: Color { red: 1, green: 2, blue: 3, alpha: 4 },
    clear_depth: 5,
    clear_stencil: 6,
    red_mask: 1,
    green_mask: 1,
    blue_mask: 1,
    alpha_mask: 1,
    depth_mask: 1,
    stencil_mask: 7,
    scissor_test: true,
    rasterizer_discard: false,
};

// A device that keeps a record of what it is asked. It refuses the request with the number in
// `refuses`, counted from zero.
struct Device {
    bound: Option<Surface<u32>>,
    created: u32,
    record: Vec<String>,
    refuses: Option<usize>,
}

impl Device {
    fn new(bound: Option<Surface<u32>>) -> Device {
        let created = bound.as_ref().map_or(0, |surface| surface.handle);
        Device { bound, created, record: vec![], refuses: None }
    }

    fn answer(&mut self, request: Request<u32>) -> Reply<u32, &'static str> {
        let refused = self.refuses == Some(self.record.len());
        let (line, reply) = match request {
            Request::CreateSurface { access, size } => {
                assert_eq!(access, SurfaceAccess::GPUOnly);
                self.created += 1;
                (
                    format!("create {} {}x{}", self.created, size.width, size.height),
                    if refused {
                        Reply::Created(Err("no memory"))
                    } else {
                        Reply::Created(Ok(Surface { handle: self.created, size }))
                    },
                )
            }
            Request::DestroySurface { surface } => (
                format!("destroy {}", surface.handle),
                Reply::Destroyed(if refused { Err("no destruction") } else { Ok(()) }),
            ),
            Request::UnbindSurface => (
                format!("unbind"),
                Reply::Unbound(if refused { Err("no unbinding") } else { Ok(self.bound.take()) }),
            ),
            Request::BindSurface { surface } => {
                let line = format!("bind {}", surface.handle);
                assert!(self.bound.is_none());
                if refused {
                    (line, Reply::Bound(Err("no binding")))
                } else {
                    self.bound = Some(surface);
                    (line, Reply::Bound(Ok(())))
                }
            }
            Request::SaveGlState => (format!("save"), Reply::Saved(GL_STATE)),
            Request::FindFramebuffer => {
                let surface = self.bound.as_ref().unwrap();
                (format!("find"), Reply::Framebuffer(100 + surface.handle))
            }
            Request::Clear { framebuffer } => (format!("clear {}", framebuffer), Reply::Cleared),
            Request::RestoreGlState { state } => {
                assert_eq!(state, GL_STATE);
                (format!("restore"), Reply::Restored)
            }
        };
        self.record.push(line);
        reply
    }

    fn finish(
        &mut self,
        chain: &mut Chain,
        first: Step<u32, &'static str>,
    ) -> Result<(), Error<&'static str>> {
        let mut step = first;
        loop {
            match step {
                Step::Ask(request) => {
                    assert!(!chain.is_idle());
                    let reply = self.answer(request);
                    assert!(chain.accepts(&reply));
                    step = chain.resume(reply);
                }
                Step::Done(result) => {
                    assert!(chain.is_idle());
                    return result;
                }
            }
        }
    }

    fn swap(&mut self, chain: &mut Chain) -> Result<(), Error<&'static str>> {
        let step = chain.swap_buffers(PRODUCER);
        self.finish(chain, step)
    }

    fn resize(&mut self, chain: &mut Chain, size: Size2D) -> Result<(), Error<&'static str>> {
        let step = chain.resize(PRODUCER, size);
        self.finish(chain, step)
    }

    fn clear(&mut self, chain: &mut Chain) -> Result<(), Error<&'static str>> {
        let step = chain.clear_surface(PRODUCER);
        self.finish(chain, step)
    }

    fn destroy(&mut self, chain: &mut Chain) -> Result<(), Error<&'static str>> {
        let step = chain.destroy(PRODUCER);
        self.finish(chain, step)
    }

    fn attach(&mut self, chain: &mut Chain, other: &mut Chain) -> Result<(), Error<&'static str>> {
        let mut step = chain.take_attachment_from(PRODUCER, other);
        loop {
            match step {
                Step::Ask(request) => {
                    let reply = self.answer(request);
                    assert!(chain.accepts(&reply));
                    step = chain.resume_attachment(other, reply);
                }
                Step::Done(result) => {
                    assert!(chain.is_idle());
                    return result;
                }
            }
        }
    }

    fn bound_handle(&self) -> Option<u32> {
        self.bound.as_ref().map(|surface| surface.handle)
    }

    fn take_record(&mut self) -> Vec<String> {
        std::mem::take(&mut self.record)
    }
}

fn surface(handle: u32, size: Size2D) -> Surface<u32> {
    Surface { handle, size }
}

fn provider() -> SurfmanProvider<u32, &'static str> {
    SurfmanProvider::new(SurfaceAccess::GPUOnly)
}

fn new_attached(context_id: u64) -> Chain {
    SwapChain::create_attached(context_id, SIZE, provider()).unwrap()
}

// An attached swap chain, whose back buffer has the handle 1.
fn attached() -> (Chain, Device) {
    let device = Device::new(Some(surface(1, SIZE)));
    (new_attached(PRODUCER), device)
}

// A detached swap chain, with a back buffer that the device creates.
fn detached(device: &mut Device, size: Size2D) -> Chain {
    match SwapChain::create_detached(PRODUCER, provider(), size) {
        Ok(Creation::NeedsSurface { access, size: asked, pending }) => {
            assert_eq!(access, SurfaceAccess::GPUOnly);
            assert_eq!(asked, size);
            device.created += 1;
            pending.finish(Ok(surface(device.created, asked))).unwrap()
        }
        _ => panic!("a new provider has no surface"),
    }
}

// What a consumer gets to display.
fn displayed(chain: &mut Chain) -> Option<u32> {
    let taken = chain.take_surface()?;
    let handle = taken.handle;
    chain.recycle_surface(taken);
    Some(handle)
}

fn is_refusal(result: Result<(), Error<&'static str>>, reason: &str) -> bool {
    match result {
        Err(Error::Refused(error)) => error == reason,
        _ => false,
    }
}

#[test]
fn attached_chain_has_the_size_of_its_surface() {
    let (chain, _) = attached();
    assert_eq!(chain.size(), SIZE);
    assert!(chain.is_attached());
    assert!(chain.is_idle());
}

#[test]
fn detached_chain_owns_its_surface() {
    let mut device = Device::new(None);
    let chain = detached(&mut device, OTHER_SIZE);
    assert_eq!(chain.size(), OTHER_SIZE);
    assert!(!chain.is_attached());
}

#[test]
fn detached_creation_reports_a_refusal() {
    match SwapChain::create_detached(PRODUCER, provider(), SIZE) {
        Ok(Creation::NeedsSurface { pending, .. }) => {
            assert!(matches!(pending.finish(Err("no memory")), Err(Error::Refused("no memory"))));
        }
        _ => panic!("a new provider has no surface"),
    }
}

#[test]
fn detached_creation_uses_a_recycled_surface() {
    let mut pool = provider();
    surfman_chains::provider::SurfaceProvider::recycle_surface(&mut pool, surface(9, SIZE));
    match SwapChain::create_detached(PRODUCER, pool, SIZE) {
        Ok(Creation::Created { mut chain }) => {
            let mut device = Device::new(None);
            assert!(device.destroy(&mut chain).is_ok());
            assert_eq!(device.take_record(), vec!["destroy 9"]);
        }
        _ => panic!("a surface waits for reuse"),
    }
}

#[test]
fn context_of_the_producer_is_valid() {
    let (chain, _) = attached();
    assert!(chain.validate_context::<&'static str>(PRODUCER).is_ok());
    assert!(matches!(
        chain.validate_context::<&'static str>(STRANGER),
        Err(Error::IncompatibleContext)
    ));
}

#[test]
fn nothing_is_displayed_before_a_swap() {
    let (mut chain, _) = attached();
    assert!(chain.take_surface().is_none());
}

#[test]
fn swap_presents_the_attached_surface() {
    let (mut chain, mut device) = attached();
    assert!(device.swap(&mut chain).is_ok());
    assert_eq!(device.take_record(), vec!["create 2 64x48", "unbind", "bind 2"]);
    assert_eq!(device.bound_handle(), Some(2));
    assert_eq!(displayed(&mut chain), Some(1));
}

#[test]
fn swap_presents_the_unattached_surface() {
    let mut device = Device::new(Some(surface(1, SIZE)));
    let mut chain = detached(&mut device, SIZE);
    assert!(device.swap(&mut chain).is_ok());
    assert_eq!(device.take_record(), vec!["create 3 64x48"]);
    assert_eq!(device.bound_handle(), Some(1));
    assert!(!chain.is_attached());
    assert_eq!(displayed(&mut chain), Some(2));
}

#[test]
fn two_surfaces_are_enough() {
    let (mut chain, mut device) = attached();
    for round in 0..10 {
        assert!(device.swap(&mut chain).is_ok());
        // Some of the front buffers are not displayed.
        if round % 3 != 0 {
            assert_eq!(displayed(&mut chain), Some(if round % 2 == 0 { 1 } else { 2 }));
        }
    }
    assert_eq!(device.created, 2);
    assert!(!device.record.iter().any(|line| line.starts_with("destroy")));
}

#[test]
fn a_displayed_surface_costs_a_third_one() {
    let (mut chain, mut device) = attached();
    assert!(device.swap(&mut chain).is_ok());
    let shown = chain.take_surface().unwrap();
    assert!(device.swap(&mut chain).is_ok());
    assert_eq!(device.created, 3);
    chain.recycle_surface(shown);
    assert!(device.swap(&mut chain).is_ok());
    assert_eq!(device.created, 3);
}

#[test]
fn swap_destroys_the_surfaces_that_are_left_over() {
    let (mut chain, mut device) = attached();
    chain.recycle_surface(surface(20, OTHER_SIZE));
    chain.recycle_surface(surface(21, SIZE));
    chain.recycle_surface(surface(22, SIZE));
    assert!(device.swap(&mut chain).is_ok());
    assert_eq!(device.take_record(), vec!["unbind", "bind 21", "destroy 20", "destroy 22"]);
    assert_eq!(displayed(&mut chain), Some(1));
}

#[test]
fn resize_replaces_the_attached_surface() {
    let (mut chain, mut device) = attached();
    assert!(device.resize(&mut chain, OTHER_SIZE).is_ok());
    assert_eq!(device.take_record(), vec!["create 2 32x24", "unbind", "bind 2", "destroy 1"]);
    assert_eq!(chain.size(), OTHER_SIZE);
    assert!(chain.is_attached());
}

#[test]
fn resize_replaces_the_unattached_surface() {
    let mut device = Device::new(None);
    let mut chain = detached(&mut device, SIZE);
    assert!(device.resize(&mut chain, OTHER_SIZE).is_ok());
    assert_eq!(device.take_record(), vec!["create 2 32x24", "destroy 1"]);
    assert_eq!(chain.size(), OTHER_SIZE);
    assert!(!chain.is_attached());
}

#[test]
fn swaps_after_a_resize_use_the_new_size() {
    let (mut chain, mut device) = attached();
    assert!(device.swap(&mut chain).is_ok());
    assert!(device.resize(&mut chain, OTHER_SIZE).is_ok());
    device.take_record();
    assert!(device.swap(&mut chain).is_ok());
    // The old front buffer does not fit any more.
    assert_eq!(device.take_record(), vec!["create 4 32x24", "unbind", "bind 4", "destroy 1"]);
}

#[test]
fn resize_rejects_small_sizes() {
    let (mut chain, mut device) = attached();
    for size in [
        Size2D { width: 0, height: 24 },
        Size2D { width: 32, height: 0 },
        Size2D { width: -1, height: -1 },
    ] {
        assert!(matches!(device.resize(&mut chain, size), Err(Error::Failed)));
    }
    assert_eq!(chain.size(), SIZE);
    assert!(device.record.is_empty());
    assert!(device.resize(&mut chain, Size2D { width: 1, height: 1 }).is_ok());
}

#[test]
fn clear_of_the_attached_chain_clears_its_surface() {
    let (mut chain, mut device) = attached();
    assert!(device.clear(&mut chain).is_ok());
    assert_eq!(device.take_record(), vec!["save", "find", "clear 101", "restore"]);
    assert_eq!(device.bound_handle(), Some(1));
    assert!(chain.is_attached());
}

#[test]
fn clear_of_a_detached_chain_binds_its_surface_for_a_while() {
    let mut device = Device::new(Some(surface(1, SIZE)));
    let mut chain = detached(&mut device, SIZE);
    assert!(device.clear(&mut chain).is_ok());
    assert_eq!(
        device.take_record(),
        vec![
            "save", "unbind", "bind 2", "find", "clear 102", "unbind", "bind 1", "restore",
        ]
    );
    assert_eq!(device.bound_handle(), Some(1));
    assert!(!chain.is_attached());
}

#[test]
fn clear_attaches_to_a_context_without_a_surface() {
    let mut device = Device::new(None);
    let mut chain = detached(&mut device, SIZE);
    assert!(device.clear(&mut chain).is_ok());
    assert_eq!(
        device.take_record(),
        vec!["save", "unbind", "bind 1", "find", "clear 101", "restore"]
    );
    assert_eq!(device.bound_handle(), Some(1));
    assert!(chain.is_attached());
}

#[test]
fn destroy_of_the_attached_chain_spares_the_bound_surface() {
    let (mut chain, mut device) = attached();
    assert!(device.swap(&mut chain).is_ok());
    chain.recycle_surface(surface(20, OTHER_SIZE));
    device.take_record();
    assert!(device.destroy(&mut chain).is_ok());
    assert_eq!(device.take_record(), vec!["destroy 1", "destroy 20"]);
    assert_eq!(device.bound_handle(), Some(2));
    assert!(chain.take_surface().is_none());
}

#[test]
fn destroy_of_a_detached_chain_destroys_all_its_surfaces() {
    let mut device = Device::new(None);
    let mut chain = detached(&mut device, SIZE);
    assert!(device.swap(&mut chain).is_ok());
    chain.recycle_surface(surface(20, SIZE));
    device.take_record();
    assert!(device.destroy(&mut chain).is_ok());
    assert_eq!(device.take_record(), vec!["destroy 2", "destroy 1", "destroy 20"]);
    assert!(chain.take_surface().is_none());
}

#[test]
fn destroy_of_an_empty_chain_asks_nothing() {
    let (mut chain, mut device) = attached();
    assert!(device.destroy(&mut chain).is_ok());
    assert!(device.record.is_empty());
}

#[test]
fn attachment_moves_between_chains() {
    let (mut chain, mut device) = attached();
    let mut other = detached(&mut device, SIZE);
    assert!(device.attach(&mut other, &mut chain).is_ok());
    assert_eq!(device.take_record(), vec!["unbind", "bind 2"]);
    assert!(other.is_attached());
    assert!(!chain.is_attached());
    assert!(device.attach(&mut chain, &mut other).is_ok());
    assert_eq!(device.take_record(), vec!["unbind", "bind 1"]);
    assert!(chain.is_attached());
    assert!(!other.is_attached());
    assert_eq!(device.bound_handle(), Some(1));
}

#[test]
fn attached_chains_take_no_attachment() {
    let (mut chain, mut device) = attached();
    let mut other = detached(&mut device, SIZE);
    assert!(matches!(device.attach(&mut chain, &mut other), Err(Error::Failed)));
    assert!(chain.is_attached());
    assert!(!other.is_attached());
    assert!(device.record.is_empty());
}

#[test]
fn detached_chains_give_no_attachment() {
    let mut device = Device::new(None);
    let mut chain = detached(&mut device, SIZE);
    let mut other = detached(&mut device, SIZE);
    assert!(matches!(device.attach(&mut chain, &mut other), Err(Error::Failed)));
    assert!(!chain.is_attached());
    assert!(!other.is_attached());
    assert!(device.record.is_empty());
    // Both still have their back buffers.
    assert!(device.destroy(&mut chain).is_ok());
    assert!(device.destroy(&mut other).is_ok());
    assert_eq!(device.take_record(), vec!["destroy 1", "destroy 2"]);
}

#[test]
fn strangers_are_refused() {
    let (mut chain, mut device) = attached();
    let mut other = detached(&mut device, SIZE);
    let foreign = new_attached(STRANGER);
    let refused = |step: Step<u32, &'static str>| -> bool {
        matches!(step, Step::Done(Err(Error::IncompatibleContext)))
    };
    assert!(refused(chain.swap_buffers(STRANGER)));
    assert!(refused(chain.resize(STRANGER, OTHER_SIZE)));
    assert!(refused(chain.resize(STRANGER, Size2D { width: 0, height: 0 })));
    assert!(refused(chain.clear_surface(STRANGER)));
    assert!(refused(chain.destroy(STRANGER)));
    assert!(refused(other.take_attachment_from(STRANGER, &chain)));
    assert!(refused(other.take_attachment_from(PRODUCER, &foreign)));
    assert_eq!(chain.size(), SIZE);
    assert!(!other.is_attached());
    assert!(device.attach(&mut other, &mut chain).is_ok());
}

#[test]
fn refused_swaps_are_reported() {
    for (number, reason) in [(0, "no memory"), (1, "no unbinding"), (2, "no binding")] {
        let (mut chain, mut device) = attached();
        device.refuses = Some(number);
        assert!(is_refusal(device.swap(&mut chain), reason));
        assert_eq!(device.record.len(), number + 1);
        assert!(chain.take_surface().is_none());
        assert!(chain.is_attached());
        assert_eq!(device.bound_handle(), if number < 2 { Some(1) } else { None });
    }
    let (mut chain, mut device) = attached();
    chain.recycle_surface(surface(20, OTHER_SIZE));
    chain.recycle_surface(surface(21, OTHER_SIZE));
    device.refuses = Some(3);
    assert!(is_refusal(device.swap(&mut chain), "no destruction"));
    assert_eq!(device.record.len(), 4);
    // The new front buffer is there already.
    assert_eq!(displayed(&mut chain), Some(1));
}

#[test]
fn refused_resizes_keep_the_size() {
    for (number, reason) in
        [(0, "no memory"), (1, "no unbinding"), (2, "no binding"), (3, "no destruction")]
    {
        let (mut chain, mut device) = attached();
        device.refuses = Some(number);
        assert!(is_refusal(device.resize(&mut chain, OTHER_SIZE), reason));
        assert_eq!(device.record.len(), number + 1);
        assert_eq!(chain.size(), SIZE);
        assert!(chain.is_attached());
        assert_eq!(device.bound_handle(), [Some(1), Some(1), None, Some(2)][number]);
    }
}

#[test]
fn refused_clears_are_reported() {
    // The number of the refused request, the reason, the surface that is bound in the end, and
    // whether the swap chain still has its back buffer.
    for (number, reason, bound, kept) in [
        (1, "no unbinding", Some(1), true),
        (2, "no binding", None, false),
        (5, "no unbinding", Some(2), false),
        (6, "no binding", None, true),
    ] {
        let mut device = Device::new(Some(surface(1, SIZE)));
        let mut chain = detached(&mut device, SIZE);
        device.refuses = Some(number);
        assert!(is_refusal(device.clear(&mut chain), reason));
        assert_eq!(device.record.len(), number + 1);
        assert_eq!(device.bound_handle(), bound);
        assert_eq!(!chain.is_attached(), kept);
        device.take_record();
        device.refuses = None;
        assert!(device.destroy(&mut chain).is_ok());
        assert_eq!(device.take_record(), if kept { vec!["destroy 2"] } else { vec![] });
    }
}

#[test]
fn refused_destructions_are_reported() {
    for number in 0..3 {
        let mut device = Device::new(None);
        let mut chain = detached(&mut device, SIZE);
        assert!(device.swap(&mut chain).is_ok());
        chain.recycle_surface(surface(20, SIZE));
        device.take_record();
        device.refuses = Some(number);
        assert!(is_refusal(device.destroy(&mut chain), "no destruction"));
        assert_eq!(device.record.len(), number + 1);
    }
}

#[test]
fn refused_attachments_are_reported() {
    // Nothing changes if the attached surface cannot be unbound.
    let (mut chain, mut device) = attached();
    let mut other = detached(&mut device, SIZE);
    device.refuses = Some(0);
    assert!(is_refusal(device.attach(&mut other, &mut chain), "no unbinding"));
    assert!(chain.is_attached());
    assert!(!other.is_attached());
    device.refuses = None;
    assert!(device.attach(&mut other, &mut chain).is_ok());
    assert_eq!(device.take_record(), vec!["unbind", "unbind", "bind 2"]);

    // A surface that cannot be bound stays with the device.
    let (mut chain, mut device) = attached();
    let mut other = detached(&mut device, SIZE);
    device.refuses = Some(1);
    assert!(is_refusal(device.attach(&mut other, &mut chain), "no binding"));
    assert!(!chain.is_attached());
    assert_eq!(device.bound_handle(), None);
    device.take_record();
    device.refuses = None;
    assert!(device.destroy(&mut chain).is_ok());
    assert_eq!(device.take_record(), vec!["destroy 1"]);
}

#[test]
fn attachment_moves_between_different_backends() {
    let pool: SurfmanProvider<u32, u8> = SurfmanProvider::new(SurfaceAccess::GPUCPU);
    let mut chain = SwapChain::create_attached(PRODUCER, SIZE, pool).unwrap();
    let mut device = Device::new(Some(surface(1, SIZE)));
    let mut other = detached(&mut device, SIZE);
    let mut step = other.take_attachment_from(PRODUCER, &chain);
    while let Step::Ask(request) = step {
        step = other.resume_attachment(&mut chain, device.answer(request));
    }
    assert!(matches!(step, Step::Done(Ok(()))));
    assert!(other.is_attached());
    assert!(!chain.is_attached());
    assert_eq!(device.bound_handle(), Some(2));
}

#[test]
fn only_answers_to_the_request_are_accepted() {
    let nothing: Reply<u32, &'static str> = Reply::Unbound(Ok(None));
    let bound: Reply<u32, &'static str> = Reply::Bound(Ok(()));
    let saved: Reply<u32, &'static str> = Reply::Saved(GL_STATE);
    let (mut chain, mut device) = attached();
    assert!(!chain.accepts(&nothing));
    chain.recycle_surface(surface(20, SIZE));
    let step: Step<u32, &'static str> = chain.swap_buffers(PRODUCER);
    assert!(matches!(step, Step::Ask(Request::UnbindSurface)));
    // The swap relies on the context to have a surface.
    assert!(!chain.accepts(&nothing));
    assert!(!chain.accepts(&bound));
    assert!(chain.accepts(&Reply::Unbound(Ok(Some(surface(1, SIZE))))));
    assert!(chain.accepts(&Reply::Unbound(Err("no unbinding"))));
    let mut other = detached(&mut device, SIZE);
    let step: Step<u32, &'static str> = other.clear_surface(PRODUCER);
    assert!(matches!(step, Step::Ask(Request::SaveGlState)));
    assert!(!other.accepts(&nothing));
    let step = other.resume(saved);
    assert!(matches!(step, Step::Ask(Request::UnbindSurface)));
    assert!(other.accepts(&nothing));
}

#[test]
fn abandoned_operations_are_over() {
    let (mut chain, mut device) = attached();
    chain.recycle_surface(surface(20, SIZE));
    let step: Step<u32, &'static str> = chain.swap_buffers(PRODUCER);
    assert!(matches!(step, Step::Ask(Request::UnbindSurface)));
    assert!(!chain.is_idle());
    chain.abandon();
    assert!(chain.is_idle());
    // The surface that was about to be bound is lost; the attached one is still there.
    assert!(chain.is_attached());
    assert!(chain.take_surface().is_none());
    assert!(device.swap(&mut chain).is_ok());
    assert_eq!(device.take_record(), vec!["create 2 64x48", "unbind", "bind 2"]);
}

#[test]
fn no_surface_is_lost_or_doubled() {
    let (mut chain, mut device) = attached();
    let mut other = detached(&mut device, OTHER_SIZE);
    assert!(device.swap(&mut chain).is_ok());
    assert!(device.swap(&mut other).is_ok());
    assert!(device.attach(&mut other, &mut chain).is_ok());
    assert!(device.resize(&mut chain, OTHER_SIZE).is_ok());
    assert!(device.clear(&mut chain).is_ok());
    assert!(device.swap(&mut other).is_ok());
    let shown = other.take_surface().unwrap();
    assert!(device.swap(&mut other).is_ok());
    other.recycle_surface(shown);
    assert!(device.destroy(&mut chain).is_ok());
    assert!(device.destroy(&mut other).is_ok());
    let mut destroyed: Vec<String> =
        device.record.iter().filter(|line| line.starts_with("destroy")).cloned().collect();
    destroyed.push(format!("destroy {}", device.bound_handle().unwrap()));
    destroyed.sort();
    let all: Vec<String> =
        (1..device.created + 1).map(|handle| format!("destroy {}", handle)).collect();
    assert_eq!(destroyed, all);
}
