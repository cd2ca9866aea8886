use mocha_compositor::dmabuf::{
    import_texture, DeviceError, Dmabuf, DmabufImports, DmabufPlane, FeedbackEntry, ImportError,
    ImportFailure, ImportStart, MemoryHint, Notice, TextureDimension, TextureFormat, TextureUsage,
};

const LINEAR: u64 = 0;
const TILED: u64 = 0x0100_0000_0000_0001;
const XRGB: u32 = 0x3432_5258;

fn buffer(fd: i32, modifier: u64) -> Dmabuf {
    Dmabuf {
        width: 640,
        height: 480,
        format: XRGB,
        planes: vec![DmabufPlane { fd, offset: 16, stride: 2560, modifier }],
    }
}

fn table() -> Vec<FeedbackEntry> {
    vec![FeedbackEntry { device: 0xe280, format: XRGB, modifier: LINEAR }]
}

#[test]
fn import_texture_builds_fixed_request() {
    let t = import_texture(&buffer(7, TILED)).unwrap();
    assert_eq!(t.fd, 7);
    assert_eq!(t.modifier, TILED);
    assert_eq!(t.offset, 16);
    assert_eq!(t.stride, 2560);
    assert_eq!((t.width, t.height, t.depth_or_array_layers), (640, 480, 1));
    assert_eq!(t.format, TextureFormat::Bgra8UnormSrgb);
    assert_eq!(t.mip_level_count, 1);
    assert_eq!(t.sample_count, 1);
    assert_eq!(t.dimension, TextureDimension::D2);
    assert_eq!(t.usage, TextureUsage::ColorTarget);
    assert_eq!(t.memory, MemoryHint::PreferCoherent);
}

#[test]
fn import_texture_invalid_fd() {
    assert_eq!(import_texture(&buffer(-1, LINEAR)), Err(ImportError::InvalidFd));
    let empty = Dmabuf { width: 1, height: 1, format: XRGB, planes: vec![] };
    assert_eq!(import_texture(&empty), Err(ImportError::InvalidFd));
}

#[test]
fn unadvertised_modifier_is_attempted_and_device_failure_reported() {
    let mut imports = DmabufImports::new(table());
    assert!(!imports.advertises(XRGB, TILED));
    assert!(imports.advertises(XRGB, LINEAR));
    let start = imports.begin(&buffer(9, TILED));
    let request = match start {
        ImportStart::Ready { request, import } => {
            assert_eq!(import.modifier, TILED);
            assert_eq!(import.fd, 9);
            request
        }
        ImportStart::Rejected(n) => panic!("rejected: {n:?}"),
    };
    assert!(imports.is_pending(request));
    let notice = imports.finish(request, Err(ImportError::Device(DeviceError::Unexpected)));
    assert_eq!(
        notice,
        Some(Notice::Failed { request, failure: ImportFailure::Device(DeviceError::Unexpected) })
    );
    assert!(!imports.is_pending(request));
}

#[test]
fn each_request_gets_exactly_one_notice() {
    let mut imports = DmabufImports::new(table());
    let a = match imports.begin(&buffer(3, LINEAR)) {
        ImportStart::Ready { request, .. } => request,
        ImportStart::Rejected(_) => panic!(),
    };
    let b = match imports.begin(&buffer(4, LINEAR)) {
        ImportStart::Ready { request, .. } => request,
        ImportStart::Rejected(_) => panic!(),
    };
    assert_ne!(a, b);
    assert_eq!(imports.finish(b, Ok(())), Some(Notice::Success { request: b, target: 0 }));
    assert_eq!(imports.finish(a, Ok(())), Some(Notice::Success { request: a, target: 1 }));
    // A second answer for the same request produces nothing.
    assert_eq!(imports.finish(a, Ok(())), None);
    assert_eq!(imports.finish(b, Err(ImportError::InvalidFd)), None);
    // An id never requested produces nothing either.
    assert_eq!(imports.finish(99, Ok(())), None);
    assert_eq!(imports.next_request(), 2);
}

#[test]
fn malformed_descriptors_fail_at_once() {
    let mut imports = DmabufImports::new(vec![]);
    let two_planes = Dmabuf {
        width: 8,
        height: 8,
        format: XRGB,
        planes: vec![
            DmabufPlane { fd: 1, offset: 0, stride: 32, modifier: LINEAR },
            DmabufPlane { fd: 2, offset: 0, stride: 32, modifier: LINEAR },
        ],
    };
    match imports.begin(&two_planes) {
        ImportStart::Rejected(n) => {
            assert_eq!(n, Notice::Failed { request: 0, failure: ImportFailure::Malformed })
        }
        ImportStart::Ready { .. } => panic!(),
    }
    let zero = Dmabuf { width: 0, height: 8, format: XRGB, planes: vec![DmabufPlane { fd: 1, offset: 0, stride: 32, modifier: LINEAR }] };
    match imports.begin(&zero) {
        ImportStart::Rejected(n) => {
            assert_eq!(n, Notice::Failed { request: 1, failure: ImportFailure::Malformed })
        }
        ImportStart::Ready { .. } => panic!(),
    }
    match imports.begin(&buffer(-5, LINEAR)) {
        ImportStart::Rejected(n) => {
            assert_eq!(n, Notice::Failed { request: 2, failure: ImportFailure::InvalidFd })
        }
        ImportStart::Ready { .. } => panic!(),
    }
    assert!(!imports.is_pending(0));
    assert_eq!(imports.finish(2, Ok(())), None);
}

#[test]
fn device_error_variants_map_to_failures() {
    let mut imports = DmabufImports::new(vec![]);
    for e in [DeviceError::OutOfMemory, DeviceError::Lost, DeviceError::Unexpected] {
        let r = match imports.begin(&buffer(5, LINEAR)) {
            ImportStart::Ready { request, .. } => request,
            ImportStart::Rejected(_) => panic!(),
        };
        assert_eq!(
            imports.finish(r, Err(ImportError::Device(e))),
            Some(Notice::Failed { request: r, failure: ImportFailure::Device(e) })
        );
    }
    let r = match imports.begin(&buffer(5, LINEAR)) {
        ImportStart::Ready { request, .. } => request,
        ImportStart::Rejected(_) => panic!(),
    };
    assert_eq!(
        imports.finish(r, Err(ImportError::InvalidFd)),
        Some(Notice::Failed { request: r, failure: ImportFailure::InvalidFd })
    );
}
