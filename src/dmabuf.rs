//! Zero-copy import of client DMA-BUF buffers: the texture request handed to
//! the graphics device, and the bookkeeping that answers every import request
//! with exactly one notice.

use vstd::prelude::*;

verus! {

/// One plane of a DMA-BUF: a borrowed file descriptor and its memory layout.
#[derive(Clone, Copy, Debug, PartialEq, Eq, Structural)]
pub struct DmabufPlane {
    pub fd: i32,
    pub offset: u32,
    pub stride: u32,
    pub modifier: u64,
}

/// A client-submitted DMA-BUF descriptor.
#[derive(Debug)]
pub struct Dmabuf {
    pub width: u32,
    pub height: u32,
    pub format: u32,
    pub planes: Vec<DmabufPlane>,
}

/// Pixel format of every imported texture: 32-bit BGRA, sRGB-encoded.
#[derive(Clone, Copy, Debug, PartialEq, Eq, Structural)]
pub enum TextureFormat {
    Bgra8UnormSrgb,
}

/// Dimensionality of an imported texture.
#[derive(Clone, Copy, Debug, PartialEq, Eq, Structural)]
pub enum TextureDimension {
    D2,
}

/// How the host uses an imported texture.
#[derive(Clone, Copy, Debug, PartialEq, Eq, Structural)]
pub enum TextureUsage {
    ColorTarget,
}

/// Memory placement asked of the device.
#[derive(Clone, Copy, Debug, PartialEq, Eq, Structural)]
pub enum MemoryHint {
    PreferCoherent,
}

/// What the graphics device is asked to build from a DMA-BUF, and what the
/// resulting render target publishes.
#[derive(Clone, Copy, Debug, PartialEq, Eq, Structural)]
pub struct TextureImport {
    pub fd: i32,
    pub modifier: u64,
    pub offset: u64,
    pub stride: u64,
    pub width: u32,
    pub height: u32,
    pub depth_or_array_layers: u32,
    pub format: TextureFormat,
    pub mip_level_count: u32,
    pub sample_count: u32,
    pub dimension: TextureDimension,
    pub usage: TextureUsage,
    pub memory: MemoryHint,
}

/// A refusal by the graphics device.
#[derive(Clone, Copy, Debug, PartialEq, Eq, Structural)]
pub enum DeviceError {
    OutOfMemory,
    Lost,
    Unexpected,
}

/// Why a buffer could not be imported.
#[derive(Clone, Copy, Debug, PartialEq, Eq, Structural)]
pub enum ImportError {
    /// The plane's file descriptor is missing or invalid.
    InvalidFd,
    /// The device rejected the buffer.
    Device(DeviceError),
}

/// The plane descriptor an import reads: the first plane, when there is one.
pub open spec fn first_plane(buffer: &Dmabuf) -> Option<DmabufPlane> {
    if buffer.planes@.len() > 0 { Some(buffer.planes@[0]) } else { None }
}

/// The texture request for a buffer whose first plane is `p`.
pub open spec fn texture_request(buffer: &Dmabuf, p: DmabufPlane) -> TextureImport {
    TextureImport {
        fd: p.fd,
        modifier: p.modifier,
        offset: p.offset as u64,
        stride: p.stride as u64,
        width: buffer.width,
        height: buffer.height,
        depth_or_array_layers: 1,
        format: TextureFormat::Bgra8UnormSrgb,
        mip_level_count: 1,
        sample_count: 1,
        dimension: TextureDimension::D2,
        usage: TextureUsage::ColorTarget,
        memory: MemoryHint::PreferCoherent,
    }
}

/// What `import_texture` yields for a buffer.
pub open spec fn spec_import(buffer: &Dmabuf) -> Result<TextureImport, ImportError> {
    match first_plane(buffer) {
        Some(p) => if p.fd >= 0 {
            Ok(texture_request(buffer, p))
        } else {
            Err(ImportError::InvalidFd)
        },
        None => Err(ImportError::InvalidFd),
    }
}

/// Builds the device request for a single-plane buffer. The file descriptor
/// is only read: the buffer keeps it.
pub fn import_texture(buffer: &Dmabuf) -> (r: Result<TextureImport, ImportError>)
    ensures
        r == spec_import(buffer),
{
    if buffer.planes.len() == 0 {
        return Err(ImportError::InvalidFd);
    }
    let plane = buffer.planes[0];
    if plane.fd < 0 {
        return Err(ImportError::InvalidFd);
    }
    Ok(TextureImport {
        fd: plane.fd,
        modifier: plane.modifier,
        offset: plane.offset as u64,
        stride: plane.stride as u64,
        width: buffer.width,
        height: buffer.height,
        depth_or_array_layers: 1,
        format: TextureFormat::Bgra8UnormSrgb,
        mip_level_count: 1,
        sample_count: 1,
        dimension: TextureDimension::D2,
        usage: TextureUsage::ColorTarget,
        memory: MemoryHint::PreferCoherent,
    })
}

/// One (device, format, modifier) tuple the host advertises as importable
/// without a copy.
#[derive(Clone, Copy, Debug, PartialEq, Eq, Structural)]
pub struct FeedbackEntry {
    pub device: u64,
    pub format: u32,
    pub modifier: u64,
}

/// Why an import request failed.
#[derive(Clone, Copy, Debug, PartialEq, Eq, Structural)]
pub enum ImportFailure {
    /// The descriptor is not a single-plane buffer with a non-empty size.
    Malformed,
    /// The plane's file descriptor is invalid.
    InvalidFd,
    /// The device rejected the buffer.
    Device(DeviceError),
}

/// The notice sent to the client for an import request.
#[derive(Clone, Copy, Debug, PartialEq, Eq, Structural)]
pub enum Notice {
    /// The buffer was imported and published as render target `target`.
    Success { request: u64, target: u64 },
    /// The buffer cannot be displayed.
    Failed { request: u64, failure: ImportFailure },
}

/// The first step of an import request.
#[derive(Debug)]
pub enum ImportStart {
    /// The descriptor is sound: the device is to be asked with `import`, and
    /// the answer handed to `DmabufImports::finish`.
    Ready { request: u64, import: TextureImport },
    /// The request failed at once; this is its notice.
    Rejected(Notice),
}

impl Notice {
    /// The request a notice answers.
    pub open spec fn request_of(self) -> u64 {
        match self {
            Notice::Success { request, .. } => request,
            Notice::Failed { request, .. } => request,
        }
    }
}

/// How many of `notices` answer request `r`.
pub open spec fn notices_for(notices: Seq<Notice>, r: u64) -> nat
    decreases notices.len(),
{
    if notices.len() == 0 {
        0
    } else {
        notices_for(notices.drop_last(), r) + if notices.last().request_of() == r { 1nat } else { 0nat }
    }
}

/// A descriptor this core imports: one plane and a non-empty size.
pub open spec fn well_formed(buffer: &Dmabuf) -> bool {
    buffer.planes@.len() == 1 && buffer.width > 0 && buffer.height > 0
}

/// The outcome of the first step for request `request` on `buffer`.
pub open spec fn spec_start(request: u64, buffer: &Dmabuf) -> ImportStart {
    if !well_formed(buffer) {
        ImportStart::Rejected(Notice::Failed { request, failure: ImportFailure::Malformed })
    } else {
        match spec_import(buffer) {
            Ok(import) => ImportStart::Ready { request, import },
            Err(_) => ImportStart::Rejected(Notice::Failed { request, failure: ImportFailure::InvalidFd }),
        }
    }
}

/// The failure reported for a device-side error.
pub open spec fn failure_of(e: ImportError) -> ImportFailure {
    match e {
        ImportError::InvalidFd => ImportFailure::InvalidFd,
        ImportError::Device(d) => ImportFailure::Device(d),
    }
}

/// The import requests of all clients: the advertised feedback table, the
/// requests waiting for the device, and every notice sent so far.
pub struct DmabufImports {
    feedback: Vec<FeedbackEntry>,
    next_request: u64,
    next_target: u64,
    pending: Vec<u64>,
    notices: Ghost<Seq<Notice>>,
}

impl DmabufImports {
    /// The advertised (device, format, modifier) tuples.
    pub closed spec fn feedback_spec(&self) -> Seq<FeedbackEntry> {
        self.feedback@
    }

    /// The id the next request gets; every smaller id was requested.
    pub closed spec fn next_request_spec(&self) -> u64 {
        self.next_request
    }

    /// The id the next successful import is published under.
    pub closed spec fn next_target_spec(&self) -> u64 {
        self.next_target
    }

    /// The requests waiting for the device's answer.
    pub closed spec fn pending_spec(&self) -> Seq<u64> {
        self.pending@
    }

    /// Every notice sent so far, in order.
    pub closed spec fn notices_spec(&self) -> Seq<Notice> {
        self.notices@
    }

    /// Each request id below the counter is either waiting, with no notice
    /// yet, or answered by exactly one notice; later ids have none.
    pub open spec fn wf(&self) -> bool {
        &&& forall|i: int, j: int|
            0 <= i < j < self.pending_spec().len() ==> self.pending_spec()[i] != self.pending_spec()[j]
        &&& forall|i: int|
            0 <= i < self.pending_spec().len() ==> #[trigger] self.pending_spec()[i] < self.next_request_spec()
        &&& forall|r: u64|
            #![trigger notices_for(self.notices_spec(), r)]
            notices_for(self.notices_spec(), r) == if r >= self.next_request_spec() || self.pending_spec().contains(r) {
                0nat
            } else {
                1nat
            }
    }

    /// A tracker with no request yet, advertising `feedback`.
    pub fn new(feedback: Vec<FeedbackEntry>) -> (r: Self)
        ensures
            r.wf(),
            r.feedback_spec() == feedback@,
            r.next_request_spec() == 0,
            r.next_target_spec() == 0,
            r.pending_spec() == Seq::<u64>::empty(),
            r.notices_spec() == Seq::<Notice>::empty(),
    {
        DmabufImports {
            feedback,
            next_request: 0,
            next_target: 0,
            pending: Vec::new(),
            notices: Ghost(Seq::empty()),
        }
    }

    /// The id the next request gets.
    pub fn next_request(&self) -> (r: u64)
        ensures
            r == self.next_request_spec(),
    {
        self.next_request
    }

    /// The id the next successful import is published under.
    pub fn next_target(&self) -> (r: u64)
        ensures
            r == self.next_target_spec(),
    {
        self.next_target
    }

    /// Whether the feedback table advertises `format` with `modifier`. The
    /// table is advice to clients only: no import is filtered by it.
    pub fn advertises(&self, format: u32, modifier: u64) -> (r: bool)
        ensures
            r == exists|i: int|
                0 <= i < self.feedback_spec().len() && #[trigger] self.feedback_spec()[i].format == format
                    && self.feedback_spec()[i].modifier == modifier,
    {
        let mut i: usize = 0;
        while i < self.feedback.len()
            invariant
                i <= self.feedback@.len(),
                forall|j: int| 0 <= j < i ==> !(#[trigger] self.feedback@[j].format == format
                    && self.feedback@[j].modifier == modifier),
            decreases self.feedback@.len() - i,
        {
            let e = self.feedback[i];
            if e.format == format && e.modifier == modifier {
                assert(self.feedback_spec()[i as int].format == format);
                return true;
            }
            i = i + 1;
        }
        false
    }

    /// Whether request `request` waits for the device.
    pub fn is_pending(&self, request: u64) -> (r: bool)
        ensures
            r == self.pending_spec().contains(request),
    {
        self.index_of(request).is_some()
    }

    fn index_of(&self, request: u64) -> (r: Option<usize>)
        ensures
            match r {
                Some(i) => i < self.pending@.len() && self.pending@[i as int] == request,
                None => !self.pending@.contains(request),
            },
    {
        let mut i: usize = 0;
        while i < self.pending.len()
            invariant
                i <= self.pending@.len(),
                forall|j: int| 0 <= j < i ==> self.pending@[j] != request,
            decreases self.pending@.len() - i,
        {
            if self.pending[i] == request {
                return Some(i);
            }
            i = i + 1;
        }
        None
    }

    /// Takes a new import request. A descriptor that is not well formed, or
    /// whose plane descriptor is invalid, is answered at once with a failure
    /// notice; any other waits for the device, whatever modifier it uses.
    pub fn begin(&mut self, buffer: &Dmabuf) -> (r: ImportStart)
        requires
            old(self).wf(),
            old(self).next_request_spec() < u64::MAX,
        ensures
            final(self).wf(),
            r == spec_start(old(self).next_request_spec(), buffer),
            final(self).next_request_spec() == old(self).next_request_spec() + 1,
            final(self).feedback_spec() == old(self).feedback_spec(),
            final(self).next_target_spec() == old(self).next_target_spec(),
            match r {
                ImportStart::Ready { request, .. } => {
                    &&& final(self).pending_spec() == old(self).pending_spec().push(request)
                    &&& final(self).notices_spec() == old(self).notices_spec()
                },
                ImportStart::Rejected(n) => {
                    &&& final(self).pending_spec() == old(self).pending_spec()
                    &&& final(self).notices_spec() == old(self).notices_spec().push(n)
                },
            },
    {
        let request = self.next_request;
        let ghost old_notices = self.notices@;
        let r = if !(buffer.planes.len() == 1 && buffer.width > 0 && buffer.height > 0) {
            ImportStart::Rejected(Notice::Failed { request, failure: ImportFailure::Malformed })
        } else {
            match import_texture(buffer) {
                Ok(import) => ImportStart::Ready { request, import },
                Err(_) => ImportStart::Rejected(Notice::Failed { request, failure: ImportFailure::InvalidFd }),
            }
        };
        match r {
            ImportStart::Ready { request, .. } => {
                self.pending.push(request);
            },
            ImportStart::Rejected(n) => {
                self.notices = Ghost(self.notices@.push(n));
            },
        }
        self.next_request = request + 1;
        proof {
            let op = old(self).pending@;
            let on = old(self).notices@;
            assert forall|q: u64| #[trigger] notices_for(self.notices@, q) == if q >= self.next_request
                || self.pending@.contains(q) {
                0nat
            } else {
                1nat
            } by {
                assert(notices_for(old(self).notices_spec(), q) == if q >= old(self).next_request_spec()
                    || old(self).pending_spec().contains(q) { 0nat } else { 1nat });
                if self.notices@.len() > on.len() {
                    lemma_notices_push(on, self.notices@.last(), q);
                    assert(on.push(self.notices@.last()) =~= self.notices@);
                }
                if self.pending@.len() > op.len() {
                    lemma_contains_push(op, request, q);
                    assert(op.push(request) =~= self.pending@);
                }
                if q == request {
                    if op.contains(q) {
                        let k = choose|k: int| 0 <= k < op.len() && op[k] == q;
                        assert(old(self).pending_spec()[k] < old(self).next_request_spec());
                    }
                }
            }
        }
        r
    }

    /// Hands in the device's answer for a waiting request and returns its
    /// notice: success publishes the texture under a fresh target id. A
    /// request that is not waiting gets no second notice.
    pub fn finish(&mut self, request: u64, outcome: Result<(), ImportError>) -> (r: Option<Notice>)
        requires
            old(self).wf(),
            old(self).next_target_spec() < u64::MAX,
        ensures
            final(self).wf(),
            final(self).next_request_spec() == old(self).next_request_spec(),
            final(self).feedback_spec() == old(self).feedback_spec(),
            old(self).pending_spec().contains(request) ==> {
                &&& r == Some(match outcome {
                    Ok(()) => Notice::Success { request, target: old(self).next_target_spec() },
                    Err(e) => Notice::Failed { request, failure: failure_of(e) },
                })
                &&& final(self).notices_spec() == old(self).notices_spec().push(r->0)
                &&& !final(self).pending_spec().contains(request)
                &&& final(self).next_target_spec() == old(self).next_target_spec() + if outcome is Ok { 1u64 } else { 0u64 }
            },
            !old(self).pending_spec().contains(request) ==> {
                &&& r is None
                &&& final(self).notices_spec() == old(self).notices_spec()
                &&& final(self).pending_spec() == old(self).pending_spec()
                &&& final(self).next_target_spec() == old(self).next_target_spec()
            },
    {
        match self.index_of(request) {
            None => None,
            Some(i) => {
                let ghost old_pending = self.pending@;
                let ghost old_notices = self.notices@;
                proof {
                    old_pending.remove_ensures(i as int);
                }
                self.pending.remove(i);
                let n = match outcome {
                    Ok(()) => {
                        let target = self.next_target;
                        self.next_target = target + 1;
                        Notice::Success { request, target }
                    },
                    Err(e) => {
                        let failure = match e {
                            ImportError::InvalidFd => ImportFailure::InvalidFd,
                            ImportError::Device(d) => ImportFailure::Device(d),
                        };
                        Notice::Failed { request, failure }
                    },
                };
                self.notices = Ghost(self.notices@.push(n));
                proof {
                    assert(old_pending[i as int] == request);
                    assert(old(self).pending_spec()[i as int] < old(self).next_request_spec());
                    assert forall|q: u64| #[trigger] notices_for(self.notices@, q) == if q >= self.next_request
                        || self.pending@.contains(q) {
                        0nat
                    } else {
                        1nat
                    } by {
                        assert(notices_for(old(self).notices_spec(), q) == if q >= old(self).next_request_spec()
                            || old(self).pending_spec().contains(q) { 0nat } else { 1nat });
                        lemma_notices_push(old_notices, n, q);
                        lemma_contains_remove_distinct(old_pending, i as int, q);
                    }
                    assert forall|a: int, b: int| 0 <= a < b < self.pending@.len() implies self.pending@[a] != self.pending@[b] by {
                        assert(old(self).pending_spec()[if a < i { a } else { a + 1 }] != old(self).pending_spec()[if b < i { b } else { b + 1 }]);
                    }
                    assert forall|a: int| 0 <= a < self.pending@.len() implies #[trigger] self.pending@[a] < self.next_request by {
                        assert(old(self).pending_spec()[if a < i { a } else { a + 1 }] < old(self).next_request_spec());
                    }
                    lemma_contains_remove_distinct(old_pending, i as int, request);
                }
                Some(n)
            },
        }
    }
}

proof fn lemma_notices_push(s: Seq<Notice>, n: Notice, q: u64)
    ensures
        notices_for(s.push(n), q) == notices_for(s, q) + if n.request_of() == q { 1nat } else { 0nat },
{
    assert(s.push(n).drop_last() =~= s);
}

proof fn lemma_contains_push(s: Seq<u64>, x: u64, q: u64)
    ensures
        s.push(x).contains(q) <==> (s.contains(q) || q == x),
{
    if s.contains(q) {
        let k = choose|k: int| 0 <= k < s.len() && s[k] == q;
        assert(s.push(x)[k] == q);
    }
    if q == x {
        assert(s.push(x)[s.len() as int] == q);
    }
}

proof fn lemma_contains_remove_distinct(s: Seq<u64>, i: int, q: u64)
    requires
        0 <= i < s.len(),
        forall|a: int, b: int| 0 <= a < b < s.len() ==> s[a] != s[b],
    ensures
        s.remove(i).contains(q) <==> (s.contains(q) && q != s[i]),
{
    s.remove_ensures(i);
    if s.contains(q) && q != s[i] {
        let k = choose|k: int| 0 <= k < s.len() && s[k] == q;
        if k < i {
            assert(s.remove(i)[k] == q);
        } else {
            assert(s.remove(i)[k - 1] == q);
        }
    }
    if s.remove(i).contains(q) {
        let k = choose|k: int| 0 <= k < s.remove(i).len() && s.remove(i)[k] == q;
        if k < i {
            assert(s[k] == q);
        } else {
            assert(s[k + 1] == q);
        }
    }
}

/// Every request that is no longer waiting has been answered by exactly one
/// notice, and a waiting one by none.
pub proof fn lemma_one_notice_per_request(imports: &DmabufImports, r: u64)
    requires
        imports.wf(),
        r < imports.next_request_spec(),
    ensures
        imports.pending_spec().contains(r) ==> notices_for(imports.notices_spec(), r) == 0,
        !imports.pending_spec().contains(r) ==> notices_for(imports.notices_spec(), r) == 1,
{
    assert(notices_for(imports.notices_spec(), r) == notices_for(imports.notices_spec(), r));
}

} // verus!
