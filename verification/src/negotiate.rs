//! Boot negotiator: turns what the boot loader offered into a validated
//! boot response, or into `None` when nothing usable was offered.
//!
//! The kernel image embeds a request declaring the minimum protocol
//! revision it accepts. The loader either leaves the request unanswered
//! or answers with a revision and a list of raw framebuffer entries. The
//! negotiator keeps exactly the entries whose geometry is usable (each
//! row holds all of its pixels and the region fits in the address space)
//! and succeeds only when the revision is high enough and at least one
//! entry survives. An absent or unusable offer is a first-class outcome,
//! not an error.

use crate::framebuffer::FramebufferDescriptor;
use vstd::prelude::*;

verus! {

/// The request embedded in the kernel image: the minimum protocol
/// revision the kernel accepts from the loader.
#[derive(Clone, Copy, PartialEq, Eq, Structural)]
pub struct BootRequest {
    pub min_revision: u64,
}

impl BootRequest {
    /// Declare the minimum accepted protocol revision.
    pub fn new(min_revision: u64) -> (r: BootRequest)
        ensures
            r.min_revision == min_revision,
    {
        BootRequest { min_revision }
    }
}

/// One framebuffer entry exactly as the loader reported it, before any
/// validation: base address of the mapped region, dimensions in pixels,
/// pitch in bytes.
#[derive(Clone, Copy, PartialEq, Eq, Structural)]
pub struct RawFramebuffer {
    pub base: usize,
    pub width: usize,
    pub height: usize,
    pub pitch: usize,
}

/// The loader's answer to the embedded request: the protocol revision it
/// speaks, and the framebuffer entries it offers.
pub struct LoaderReply {
    pub revision: u64,
    pub framebuffers: Vec<RawFramebuffer>,
}

/// A validated response: at least one usable framebuffer descriptor.
pub struct BootResponse {
    pub framebuffers: Vec<FramebufferDescriptor>,
}

/// Is a raw entry usable? Its pitch holds a whole row of 4-byte pixels
/// and the whole region fits in the address space.
pub open spec fn raw_valid(rf: RawFramebuffer) -> bool {
    &&& rf.pitch >= rf.width * 4
    &&& rf.height * rf.pitch <= usize::MAX
}

/// The descriptor a usable raw entry turns into.
pub open spec fn to_descriptor(rf: RawFramebuffer) -> FramebufferDescriptor {
    FramebufferDescriptor { base: rf.base, width: rf.width, height: rf.height, pitch: rf.pitch }
}

/// The usable entries of an offer, in order, as descriptors.
pub open spec fn keep_valid(s: Seq<RawFramebuffer>) -> Seq<FramebufferDescriptor>
    decreases s.len(),
{
    if s.len() == 0 {
        Seq::empty()
    } else if raw_valid(s.last()) {
        keep_valid(s.drop_last()).push(to_descriptor(s.last()))
    } else {
        keep_valid(s.drop_last())
    }
}

/// The negotiation outcome owed for a given request and loader reply:
/// `Some` exactly when the loader answered, with a high enough revision,
/// and at least one usable framebuffer entry.
pub open spec fn negotiation(req: BootRequest, reply: Option<LoaderReply>) -> Option<
    Seq<FramebufferDescriptor>,
> {
    match reply {
        Option::None => Option::None,
        Option::Some(rep) => if rep.revision < req.min_revision {
            Option::None
        } else {
            let kept = keep_valid(rep.framebuffers@);
            if kept.len() == 0 {
                Option::None
            } else {
                Option::Some(kept)
            }
        },
    }
}

/// Every kept descriptor is well formed.
pub proof fn lemma_keep_valid_wf(s: Seq<RawFramebuffer>)
    ensures
        forall|i: int| 0 <= i < keep_valid(s).len() ==> (#[trigger] keep_valid(s)[i]).wf(),
    decreases s.len(),
{
    if s.len() == 0 {
    } else {
        lemma_keep_valid_wf(s.drop_last());
        let kept = keep_valid(s);
        let prev = keep_valid(s.drop_last());
        if raw_valid(s.last()) {
            assert(kept == prev.push(to_descriptor(s.last())));
            assert(to_descriptor(s.last()).wf());
            assert forall|i: int| 0 <= i < kept.len() implies (#[trigger] kept[i]).wf() by {
                if i < prev.len() {
                    assert(kept[i] == prev[i]);
                } else {
                    assert(kept[i] == to_descriptor(s.last()));
                }
            }
        } else {
            assert(kept == prev);
        }
    }
}

/// Resolve the embedded request against what the loader offered.
///
/// Returns `Some` with the usable descriptors, in the loader's order, if
/// and only if the loader answered, honors at least the requested
/// protocol revision, and offered at least one usable framebuffer; every
/// descriptor in a successful response satisfies `pitch >= width * 4`.
/// `None` is the defined, non-fatal outcome for every other offer.
pub fn negotiate(request: &BootRequest, reply: Option<LoaderReply>) -> (r: Option<BootResponse>)
    ensures
        r is Some <==> negotiation(*request, reply) is Some,
        r matches Some(resp) ==> {
            &&& Some(resp.framebuffers@) == negotiation(*request, reply)
            &&& resp.framebuffers@.len() >= 1
            &&& forall|i: int|
                0 <= i < resp.framebuffers@.len() ==> (#[trigger] resp.framebuffers@[i]).wf()
        },
{
    match reply {
        Option::None => Option::None,
        Option::Some(rep) => {
            if rep.revision < request.min_revision {
                return Option::None;
            }
            let mut kept: Vec<FramebufferDescriptor> = Vec::new();
            let mut i: usize = 0;
            let n = rep.framebuffers.len();
            proof {
                assert(rep.framebuffers@.take(0) =~= Seq::<RawFramebuffer>::empty());
            }
            while i < n
                invariant
                    n == rep.framebuffers@.len(),
                    i <= n,
                    kept@ == keep_valid(rep.framebuffers@.take(i as int)),
                decreases n - i,
            {
                let rf = rep.framebuffers[i];
                let usable = match rf.width.checked_mul(4) {
                    Option::Some(row) => match rf.height.checked_mul(rf.pitch) {
                        Option::Some(_) => rf.pitch >= row,
                        Option::None => false,
                    },
                    Option::None => false,
                };
                proof {
                    if rf.width * 4 > usize::MAX {
                        assert(!raw_valid(rf));
                    }
                }
                if usable {
                    kept.push(FramebufferDescriptor {
                        base: rf.base,
                        width: rf.width,
                        height: rf.height,
                        pitch: rf.pitch,
                    });
                }
                proof {
                    assert(rep.framebuffers@.take(i + 1).drop_last() =~= rep.framebuffers@.take(
                        i as int,
                    ));
                    assert(rep.framebuffers@.take(i + 1).last() == rep.framebuffers@[i as int]);
                }
                i = i + 1;
            }
            proof {
                assert(rep.framebuffers@.take(n as int) =~= rep.framebuffers@);
                lemma_keep_valid_wf(rep.framebuffers@);
            }
            if kept.len() == 0 {
                Option::None
            } else {
                Option::Some(BootResponse { framebuffers: kept })
            }
        },
    }
}

} // verus!
